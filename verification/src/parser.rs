//! The token stream builder: turns printable characters and SGR sequences
//! into an ordered stream of colour changes and characters.

use vstd::prelude::*;

use crate::ansi::colors::{spec_default_foreground, Colors, ColorsView};
use crate::ansi::list::{resolved_palette, List, COUNT};
use crate::ansi::named::NamedColor;
use crate::ansi::rgb::Rgb;
use crate::ansi::sgr::{
    attrs_from_sgr_parameters, decode_from, decoded, diagnosed, is_extended, lemma_decoded_len,
    sgr_diagnostics, simple_attr, Attr, Color, SgrDiagnostic,
};
use crate::reports::{report_views, reports_of, vte_reports, Report, ReportView};

verus! {

/// One element of the output: a change of the colour in force, or a
/// character to draw in the colour in force.
#[derive(Debug, Clone, Copy, PartialEq, Eq, Structural)]
pub enum Token {
    Color(Rgb),
    Char(char),
}

/// The slot of the palette that holds the default foreground.
pub open spec fn default_foreground_slot() -> int {
    NamedColor::Foreground.spec_slot() as int
}

/// The colour that `color` stands for under `palette`: named and indexed
/// colours are looked up, a direct colour stands for itself.
pub open spec fn resolve(palette: Seq<Rgb>, color: Color) -> Rgb
    recommends
        palette.len() == COUNT,
{
    match color {
        Color::Named(name) => palette[name.spec_slot() as int],
        Color::Indexed(index) => palette[index as int],
        Color::Spec(rgb) => rgb,
    }
}

/// The token that one entry of a decoded SGR sequence adds to the output:
/// a foreground sets the colour, a reset restores the default foreground,
/// and everything else (styles, backgrounds, entries without a meaning)
/// adds nothing.
pub open spec fn attr_token(palette: Seq<Rgb>, attr: Option<Attr>) -> Option<Token>
    recommends
        palette.len() == COUNT,
{
    match attr {
        Some(Attr::Foreground(color)) => Some(Token::Color(resolve(palette, color))),
        Some(Attr::Reset) => Some(Token::Color(palette[default_foreground_slot()])),
        _ => None,
    }
}

/// The tokens that a decoded SGR sequence adds to the output, in order.
pub open spec fn attr_tokens(palette: Seq<Rgb>, attrs: Seq<Option<Attr>>) -> Seq<Token> {
    attrs.filter_map(|attr: Option<Attr>| attr_token(palette, attr))
}

/// The tokens that the parameters of one SGR sequence add to the output.
pub open spec fn sgr_tokens(palette: Seq<Rgb>, params: Seq<i64>) -> Seq<Token> {
    attr_tokens(palette, decoded(params))
}

/// The number of character tokens in a stream.
pub open spec fn char_count(tokens: Seq<Token>) -> nat {
    tokens.filter(|token: Token| token is Char).len()
}

/// The number of character tokens among `tokens`.
pub fn chars_count(tokens: &[Token]) -> (count: usize)
    ensures
        count == char_count(tokens@),
{
    let mut count: usize = 0;
    let mut i: usize = 0;
    while i < tokens.len()
        invariant
            i <= tokens.len(),
            count <= i,
            count == char_count(tokens@.take(i as int)),
        decreases tokens.len() - i,
    {
        proof {
            let is_char = |token: Token| token is Char;
            assert(tokens@.take(i + 1) =~= tokens@.take(i as int).push(tokens@[i as int]));
            tokens@.take(i as int).lemma_filter_len_push(is_char, tokens@[i as int]);
        }
        match tokens[i] {
            Token::Char(_) => {
                count += 1;
            },
            Token::Color(_) => {},
        }
        i += 1;
    }
    assert(tokens@.take(i as int) =~= tokens@);
    count
}

/// The colour in force at position `at` of a stream that is entered with
/// the colour `initial`: that of the last colour change before `at`, or
/// `initial` where there is none.
pub open spec fn color_in_force(tokens: Seq<Token>, initial: Rgb, at: int) -> Rgb
    decreases at,
{
    if at <= 0 {
        initial
    } else {
        match tokens[at - 1] {
            Token::Color(color) => color,
            Token::Char(_) => color_in_force(tokens, initial, at - 1),
        }
    }
}

/// The characters among the first `upto` tokens, each with the colour in
/// force at its position.
pub open spec fn painted_upto(tokens: Seq<Token>, initial: Rgb, upto: int) -> Seq<(Rgb, char)>
    decreases upto,
{
    if upto <= 0 {
        Seq::empty()
    } else {
        let before = painted_upto(tokens, initial, upto - 1);
        match tokens[upto - 1] {
            Token::Char(c) => before.push((color_in_force(tokens, initial, upto - 1), c)),
            Token::Color(_) => before,
        }
    }
}

/// The characters of a stream in their order, each with the colour in which
/// it is drawn: a colour change applies to every character after it until
/// the next change.
pub open spec fn painted(tokens: Seq<Token>, initial: Rgb) -> Seq<(Rgb, char)> {
    painted_upto(tokens, initial, tokens.len() as int)
}

/// Pairs every character of a stream with the colour in which it is drawn.
/// Characters before the first colour change get the colour `initial`.
pub fn paint(tokens: &[Token], initial: Rgb) -> (chars: Vec<(Rgb, char)>)
    ensures
        chars@ == painted(tokens@, initial),
{
    let mut chars: Vec<(Rgb, char)> = Vec::new();
    let mut color = initial;
    let mut i: usize = 0;
    while i < tokens.len()
        invariant
            i <= tokens.len(),
            color == color_in_force(tokens@, initial, i as int),
            chars@ == painted_upto(tokens@, initial, i as int),
        decreases tokens.len() - i,
    {
        match tokens[i] {
            Token::Color(c) => {
                color = c;
            },
            Token::Char(c) => {
                chars.push((color, c));
            },
        }
        i += 1;
    }
    chars
}

/// Builds the token stream of one input. The output only ever grows at its
/// end.
#[derive(Debug)]
pub struct Parser {
    /// The tokens emitted so far.
    pub output: Vec<Token>,
    /// The palette against which named and indexed colours are resolved.
    pub palette: List,
    /// The faults met in SGR sequences so far, in the order in which they
    /// were met. A fault costs the output nothing but the one colour change.
    pub diagnostics: Vec<SgrDiagnostic>,
}

impl Parser {
    /// A builder over `palette` whose output starts with one colour change,
    /// to the default foreground of the palette.
    pub fn new(palette: List) -> (parser: Parser)
        ensures
            parser.palette == palette,
            parser.output@ == seq![Token::Color(palette@[default_foreground_slot()])],
            parser.diagnostics@ == Seq::<SgrDiagnostic>::empty(),
    {
        let mut output = Vec::new();
        output.push(Token::Color(palette[NamedColor::Foreground]));
        Parser { output, palette, diagnostics: Vec::new() }
    }

    /// The number of characters emitted so far.
    pub fn chars_count(&self) -> (count: usize)
        ensures
            count == char_count(self.output@),
    {
        chars_count(self.output.as_slice())
    }

    /// Ends the stream and hands over the tokens.
    pub fn finish(self) -> (tokens: Vec<Token>)
        ensures
            tokens@ == self.output@,
    {
        self.output
    }
}

impl vte::Perform for Parser {
    /// A printable character arrived: it is appended to the output.
    fn print(&mut self, c: char)
        ensures
            final(self).palette == old(self).palette,
            final(self).diagnostics@ == old(self).diagnostics@,
            final(self).output@ == old(self).output@.push(Token::Char(c)),
    {
        self.output.push(Token::Char(c));
    }

    /// A C0 or C1 control arrived: nothing changes.
    fn execute(&mut self, _byte: u8)
        ensures
            *final(self) == *old(self),
    {
    }

    /// A device control string begins: nothing changes.
    fn hook(&mut self, _params: &[i64], _intermediates: &[u8], _ignore: bool, _c: char)
        ensures
            *final(self) == *old(self),
    {
    }

    /// A byte of a device control string arrived: nothing changes.
    fn put(&mut self, _byte: u8)
        ensures
            *final(self) == *old(self),
    {
    }

    /// A device control string ended: nothing changes.
    fn unhook(&mut self)
        ensures
            *final(self) == *old(self),
    {
    }

    /// An operating system command arrived: nothing changes.
    fn osc_dispatch(&mut self, _params: &[&[u8]], _bell_terminated: bool)
        ensures
            *final(self) == *old(self),
    {
    }

    /// A CSI sequence ended with the final character `c`.
    ///
    /// Unless `c` is `m` nothing changes. For an SGR sequence the parameters
    /// are decoded, and in their order each foreground appends a change to
    /// its resolved colour and each reset a change to the default
    /// foreground. Styles, backgrounds and entries that could not be decoded
    /// append nothing. Each extended colour that could not be read leaves a
    /// diagnostic.
    fn csi_dispatch(&mut self, params: &[i64], _intermediates: &[u8], _ignore: bool, c: char)
        ensures
            final(self).palette == old(self).palette,
            final(self).output@ == old(self).output@ + (if c == 'm' {
                sgr_tokens(old(self).palette@, params@)
            } else {
                Seq::empty()
            }),
            final(self).diagnostics@ == old(self).diagnostics@ + (if c == 'm' {
                diagnosed(params@)
            } else {
                Seq::empty()
            }),
    {
        if c != 'm' {
            // Not a color "CSI"
            return ;
        }
        let mut found = sgr_diagnostics(params);
        self.diagnostics.append(&mut found);
        let attrs = attrs_from_sgr_parameters(params);
        let ghost palette = self.palette@;
        let ghost to_token = |attr: Option<Attr>| attr_token(palette, attr);
        let mut i: usize = 0;
        proof {
            self.palette.lemma_len();
        }
        while i < attrs.len()
            invariant
                i <= attrs.len(),
                attrs@ == decoded(params@),
                self.palette == old(self).palette,
                self.diagnostics@ == old(self).diagnostics@ + diagnosed(params@),
                palette == self.palette@,
                palette.len() == COUNT,
                to_token == |attr: Option<Attr>| attr_token(palette, attr),
                self.output@ == old(self).output@ + attrs@.take(i as int).filter_map(to_token),
            decreases attrs.len() - i,
        {
            proof {
                attrs@.lemma_filter_map_take_succ(to_token, i as int);
            }
            let color = match attrs[i] {
                Some(attr) => match attr {
                    Attr::Foreground(foreground) => match foreground {
                        Color::Indexed(index) => Some(self.palette[index]),
                        Color::Named(name) => Some(self.palette[name]),
                        Color::Spec(rgb) => Some(rgb),
                    },
                    Attr::Reset => Some(self.palette[NamedColor::Foreground]),
                    Attr::Bold
                    | Attr::Dim
                    | Attr::Italic
                    | Attr::Underline
                    | Attr::BlinkSlow
                    | Attr::BlinkFast
                    | Attr::Reverse
                    | Attr::Hidden
                    | Attr::Strike
                    | Attr::CancelBold
                    | Attr::CancelBoldDim
                    | Attr::CancelItalic
                    | Attr::CancelUnderline
                    | Attr::CancelBlink
                    | Attr::CancelReverse
                    | Attr::CancelHidden
                    | Attr::CancelStrike
                    | Attr::Background(_) => None,
                },
                None => None,
            };
            if let Some(c) = color {
                self.output.push(Token::Color(c));
            }
            i += 1;
        }
        assert(attrs@.take(i as int) =~= attrs@);
    }

    /// An escape sequence ended: nothing changes.
    fn esc_dispatch(&mut self, _intermediates: &[u8], _ignore: bool, _byte: u8)
        ensures
            *final(self) == *old(self),
    {
    }
}

/// The tokens that one report adds to the output: a printed character adds
/// the character, a CSI sequence with the final character `m` adds the
/// tokens of its parameters, and every other report adds nothing.
pub open spec fn report_tokens(palette: Seq<Rgb>, report: ReportView) -> Seq<Token> {
    match report {
        ReportView::Print(c) => seq![Token::Char(c)],
        ReportView::Csi { params, action, .. } => if action == 'm' {
            sgr_tokens(palette, params)
        } else {
            Seq::empty()
        },
        _ => Seq::empty(),
    }
}

/// The diagnostics that one report adds: those of the parameters of a CSI
/// sequence with the final character `m`.
pub open spec fn report_diagnostics(report: ReportView) -> Seq<SgrDiagnostic> {
    match report {
        ReportView::Csi { params, action, .. } => if action == 'm' {
            diagnosed(params)
        } else {
            Seq::empty()
        },
        _ => Seq::empty(),
    }
}

/// The tokens that a list of reports adds to the output, in its order.
pub open spec fn stream(palette: Seq<Rgb>, reports: Seq<ReportView>) -> Seq<Token>
    decreases reports.len(),
{
    if reports.len() == 0 {
        Seq::empty()
    } else {
        stream(palette, reports.drop_last()) + report_tokens(palette, reports.last())
    }
}

/// The diagnostics that a list of reports adds, in its order.
pub open spec fn stream_diagnostics(reports: Seq<ReportView>) -> Seq<SgrDiagnostic>
    decreases reports.len(),
{
    if reports.len() == 0 {
        Seq::empty()
    } else {
        stream_diagnostics(reports.drop_last()) + report_diagnostics(reports.last())
    }
}

impl Parser {
    /// Takes one report of the state machine, as the call that it records
    /// would have been taken.
    pub fn perform(&mut self, report: &Report)
        ensures
            final(self).palette == old(self).palette,
            final(self).output@ == old(self).output@ + report_tokens(old(self).palette@, report@),
            final(self).diagnostics@ == old(self).diagnostics@ + report_diagnostics(report@),
    {
        match report {
            Report::Print(c) => vte::Perform::print(self, *c),
            Report::Execute(byte) => vte::Perform::execute(self, *byte),
            Report::Hook { params, intermediates, ignore, action } => vte::Perform::hook(
                self,
                params.as_slice(),
                intermediates.as_slice(),
                *ignore,
                *action,
            ),
            Report::Put(byte) => vte::Perform::put(self, *byte),
            Report::Unhook => vte::Perform::unhook(self),
            Report::Osc { parts, bell_terminated } => {
                let mut slices: Vec<&[u8]> = Vec::with_capacity(parts.len());
                let mut i: usize = 0;
                while i < parts.len()
                    invariant
                        *self == *old(self),
                    decreases parts.len() - i,
                {
                    slices.push(parts[i].as_slice());
                    i += 1;
                }
                vte::Perform::osc_dispatch(self, slices.as_slice(), *bell_terminated)
            },
            Report::Csi { params, intermediates, ignore, action } => vte::Perform::csi_dispatch(
                self,
                params.as_slice(),
                intermediates.as_slice(),
                *ignore,
                *action,
            ),
            Report::Esc { intermediates, ignore, byte } => vte::Perform::esc_dispatch(
                self,
                intermediates.as_slice(),
                *ignore,
                *byte,
            ),
        }
        assert(self.output@ =~= old(self).output@ + report_tokens(old(self).palette@, report@));
        assert(self.diagnostics@ =~= old(self).diagnostics@ + report_diagnostics(report@));
    }

    /// Takes a list of reports in its order.
    pub fn perform_all(&mut self, reports: &[Report])
        ensures
            final(self).palette == old(self).palette,
            final(self).output@ == old(self).output@ + stream(
                old(self).palette@,
                report_views(reports@),
            ),
            final(self).diagnostics@ == old(self).diagnostics@ + stream_diagnostics(
                report_views(reports@),
            ),
    {
        let ghost views = report_views(reports@);
        let mut i: usize = 0;
        while i < reports.len()
            invariant
                i <= reports.len(),
                views == report_views(reports@),
                self.palette == old(self).palette,
                self.output@ == old(self).output@ + stream(self.palette@, views.take(i as int)),
                self.diagnostics@ == old(self).diagnostics@ + stream_diagnostics(
                    views.take(i as int),
                ),
            decreases reports.len() - i,
        {
            proof {
                assert(views.take(i + 1).drop_last() =~= views.take(i as int));
                assert(views.take(i + 1).last() == reports@[i as int]@);
            }
            self.perform(&reports[i]);
            i += 1;
        }
        assert(views.take(i as int) =~= views);
    }

    /// Reads a whole input: the bytes go through the state machine of
    /// `vte`, and what it reports for them is taken in its order.
    ///
    /// The input is read from the initial state of the state machine, so a
    /// sequence that is cut off by the end of the input is lost. An empty
    /// input changes nothing.
    pub fn run(&mut self, input: &[u8])
        ensures
            final(self).palette == old(self).palette,
            final(self).output@ == old(self).output@ + stream(
                old(self).palette@,
                vte_reports(input@),
            ),
            final(self).diagnostics@ == old(self).diagnostics@ + stream_diagnostics(
                vte_reports(input@),
            ),
            input@.len() == 0 ==> final(self).output@ == old(self).output@,
            input@.len() == 0 ==> final(self).diagnostics@ == old(self).diagnostics@,
    {
        let reports = reports_of(input);
        self.perform_all(reports.as_slice());
        proof {
            if input@.len() == 0 {
                assert(self.output@ =~= old(self).output@);
                assert(self.diagnostics@ =~= old(self).diagnostics@);
            }
        }
    }
}

/// Turns a whole input into its token stream, with the colours of `palette`.
///
/// The stream begins with the change to the default foreground. Then come,
/// in the order of the input, a character for each printable character and
/// the colour changes of each SGR sequence that `vte` reports. An empty
/// input gives the first token alone.
pub fn parse(input: &[u8], palette: List) -> (tokens: Vec<Token>)
    ensures
        tokens@ == seq![Token::Color(palette@[default_foreground_slot()])] + stream(
            palette@,
            vte_reports(input@),
        ),
        input@.len() == 0 ==> tokens@ == seq![Token::Color(palette@[default_foreground_slot()])],
{
    let mut parser = Parser::new(palette);
    parser.run(input);
    parser.finish()
}

impl Default for Parser {
    /// A builder over the palette of the default configuration.
    fn default() -> (parser: Parser)
        ensures
            parser.palette@ == resolved_palette(Colors::spec_default()),
            parser.output@ == seq![Token::Color(spec_default_foreground())],
            parser.diagnostics@ == Seq::<SgrDiagnostic>::empty(),
    {
        let colors = Colors::default();
        Parser::new(List::from(&colors))
    }
}

proof fn lemma_painted_upto(tokens: Seq<Token>, a: Rgb, b: Rgb, upto: int)
    requires
        0 <= upto <= tokens.len(),
    ensures
        painted_upto(tokens, a, upto).len() == char_count(tokens.take(upto)),
        upto > 0 && tokens[0] is Color ==> color_in_force(tokens, a, upto) == color_in_force(
            tokens,
            b,
            upto,
        ),
        tokens.len() > 0 && tokens[0] is Color ==> painted_upto(tokens, a, upto) == painted_upto(
            tokens,
            b,
            upto,
        ),
    decreases upto,
{
    let is_char = |token: Token| token is Char;
    if upto == 0 {
        assert(tokens.take(0).filter(is_char).len() == 0) by {
            tokens.take(0).lemma_filter_len(is_char);
        }
    } else {
        lemma_painted_upto(tokens, a, b, upto - 1);
        assert(tokens.take(upto) =~= tokens.take(upto - 1).push(tokens[upto - 1]));
        tokens.take(upto - 1).lemma_filter_len_push(is_char, tokens[upto - 1]);
    }
}

/// A stream paints as many characters as it holds character tokens.
pub proof fn lemma_painted_len(tokens: Seq<Token>, initial: Rgb)
    ensures
        painted(tokens, initial).len() == char_count(tokens),
{
    lemma_painted_upto(tokens, initial, initial, tokens.len() as int);
    assert(tokens.take(tokens.len() as int) =~= tokens);
}

/// A stream that begins with a colour change paints the same whatever
/// colour it is entered with.
pub proof fn lemma_painted_after_color(tokens: Seq<Token>, a: Rgb, b: Rgb)
    requires
        tokens.len() > 0,
        tokens[0] is Color,
    ensures
        painted(tokens, a) == painted(tokens, b),
{
    lemma_painted_upto(tokens, a, b, tokens.len() as int);
}

/// Reset: the parameter list `[0]` adds exactly one token, the change to
/// the default foreground, whatever the palette holds and whatever was
/// emitted before.
pub proof fn lemma_reset_restores_default(palette: Seq<Rgb>)
    ensures
        decoded(seq![0i64]) == seq![Some(Attr::Reset)],
        sgr_tokens(palette, seq![0i64]) == seq![Token::Color(palette[default_foreground_slot()])],
{
    let params = seq![0i64];
    assert(!is_extended(params[0]));
    assert(decode_from(params, 1) =~= Seq::<Option<Attr>>::empty());
    assert(decoded(params) =~= seq![Some(Attr::Reset)]);
    Seq::lemma_filter_map_singleton(
        Some(Attr::Reset),
        |attr: Option<Attr>| attr_token(palette, attr),
    );
}

/// A lone code for a standard or bright foreground adds exactly one token:
/// the change to the colour that the configuration behind the palette gives
/// to that name. The code 39 restores the configured foreground.
pub proof fn lemma_named_foreground(cfg: ColorsView, code: i64)
    requires
        30 <= code <= 37 || code == 39 || 90 <= code <= 97,
    ensures
        sgr_tokens(resolved_palette(cfg), seq![code]) == seq![
            Token::Color(
                if code <= 37 {
                    cfg.normal.at(code - 30)
                } else if code == 39 {
                    cfg.primary.foreground
                } else {
                    cfg.bright.at(code - 90)
                },
            ),
        ],
{
    let params = seq![code];
    let palette = resolved_palette(cfg);
    assert(!is_extended(params[0]));
    assert(decode_from(params, 1) =~= Seq::<Option<Attr>>::empty());
    assert(decoded(params) =~= seq![simple_attr(code)]);
    Seq::lemma_filter_map_singleton(
        simple_attr(code),
        |attr: Option<Attr>| attr_token(palette, attr),
    );
}

/// A lone code without a meaning decodes to one empty entry and adds no
/// token.
pub proof fn lemma_unknown_code_adds_nothing(palette: Seq<Rgb>, code: i64)
    requires
        !is_extended(code),
        simple_attr(code) is None,
    ensures
        decoded(seq![code]) == seq![None::<Attr>],
        sgr_tokens(palette, seq![code]) == Seq::<Token>::empty(),
{
    let params = seq![code];
    assert(decode_from(params, 1) =~= Seq::<Option<Attr>>::empty());
    assert(decoded(params) =~= seq![None::<Attr>]);
    Seq::lemma_filter_map_singleton(None::<Attr>, |attr: Option<Attr>| attr_token(palette, attr));
}

proof fn lemma_attr_tokens_are_colors(palette: Seq<Rgb>, attrs: Seq<Option<Attr>>)
    ensures
        attr_tokens(palette, attrs).len() <= attrs.len(),
        char_count(attr_tokens(palette, attrs)) == 0,
    decreases attrs.len(),
{
    let to_token = |attr: Option<Attr>| attr_token(palette, attr);
    let is_char = |token: Token| token is Char;
    if attrs.len() == 0 {
        assert(attrs.filter_map(to_token).filter(is_char).len() == 0) by {
            attrs.filter_map(to_token).lemma_filter_len(is_char);
        }
    } else {
        lemma_attr_tokens_are_colors(palette, attrs.drop_last());
        let before = attrs.drop_last().filter_map(to_token);
        match to_token(attrs.last()) {
            Some(token) => {
                assert(attrs.filter_map(to_token) =~= before.push(token));
                before.lemma_filter_len_push(is_char, token);
            },
            None => {},
        }
    }
}

/// An SGR sequence adds no character: the count of characters stays, and at
/// most one token comes per parameter.
pub proof fn lemma_sgr_adds_no_chars(output: Seq<Token>, palette: Seq<Rgb>, params: Seq<i64>)
    ensures
        char_count(output + sgr_tokens(palette, params)) == char_count(output),
        sgr_tokens(palette, params).len() <= params.len(),
{
    let is_char = |token: Token| token is Char;
    lemma_attr_tokens_are_colors(palette, decoded(params));
    lemma_decoded_len(params);
    Seq::filter_distributes_over_add(output, sgr_tokens(palette, params), is_char);
}

/// A printed character raises the count of characters by one.
pub proof fn lemma_print_adds_one_char(output: Seq<Token>, c: char)
    ensures
        char_count(output.push(Token::Char(c))) == char_count(output) + 1,
{
    output.lemma_filter_len_push(|token: Token| token is Char, Token::Char(c));
}

/// Reports taken in pieces give the output and the diagnostics of the
/// reports taken at once.
pub proof fn lemma_stream_of_pieces(palette: Seq<Rgb>, a: Seq<ReportView>, b: Seq<ReportView>)
    ensures
        stream(palette, a + b) == stream(palette, a) + stream(palette, b),
        stream_diagnostics(a + b) == stream_diagnostics(a) + stream_diagnostics(b),
    decreases b.len(),
{
    if b.len() == 0 {
        assert(a + b =~= a);
        assert(stream(palette, a) + stream(palette, b) =~= stream(palette, a));
        assert(stream_diagnostics(a) + stream_diagnostics(b) =~= stream_diagnostics(a));
    } else {
        lemma_stream_of_pieces(palette, a, b.drop_last());
        assert((a + b).drop_last() =~= a + b.drop_last());
        assert((a + b).last() == b.last());
        assert(stream(palette, a + b) =~= stream(palette, a) + stream(palette, b));
        assert(stream_diagnostics(a + b) =~= stream_diagnostics(a) + stream_diagnostics(b));
    }
}

/// The number of printed characters among reports.
pub open spec fn print_count(reports: Seq<ReportView>) -> nat {
    reports.filter(|report: ReportView| report is Print).len()
}

/// The stream of a list of reports holds one character for each printed
/// character among them, and no other.
pub proof fn lemma_stream_char_count(palette: Seq<Rgb>, reports: Seq<ReportView>)
    ensures
        char_count(stream(palette, reports)) == print_count(reports),
    decreases reports.len(),
{
    let is_char = |token: Token| token is Char;
    let is_print = |report: ReportView| report is Print;
    if reports.len() == 0 {
        assert(stream(palette, reports).filter(is_char).len() == 0) by {
            stream(palette, reports).lemma_filter_len(is_char);
        }
        assert(reports.filter(is_print).len() == 0) by {
            reports.lemma_filter_len(is_print);
        }
    } else {
        let before = reports.drop_last();
        let last = reports.last();
        lemma_stream_char_count(palette, before);
        assert(reports =~= before.push(last));
        before.lemma_filter_len_push(is_print, last);
        Seq::filter_distributes_over_add(
            stream(palette, before),
            report_tokens(palette, last),
            is_char,
        );
        match last {
            ReportView::Print(c) => {
                assert(report_tokens(palette, last) =~= Seq::<Token>::empty().push(
                    Token::Char(c),
                ));
                Seq::<Token>::empty().lemma_filter_len_push(is_char, Token::Char(c));
                assert(Seq::<Token>::empty().filter(is_char).len() == 0) by {
                    Seq::<Token>::empty().lemma_filter_len(is_char);
                }
            },
            ReportView::Csi { params, action, .. } => {
                if action == 'm' {
                    lemma_attr_tokens_are_colors(palette, decoded(params));
                } else {
                    assert(Seq::<Token>::empty().filter(is_char).len() == 0) by {
                        Seq::<Token>::empty().lemma_filter_len(is_char);
                    }
                }
            },
            _ => {
                assert(Seq::<Token>::empty().filter(is_char).len() == 0) by {
                    Seq::<Token>::empty().lemma_filter_len(is_char);
                }
            },
        }
    }
}

} // verus!
