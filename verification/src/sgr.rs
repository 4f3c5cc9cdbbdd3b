//! Select Graphic Rendition: the escape sequences that style terminal text.

use crate::strings::{chars_of, split_on};
use crate::style::{CanvasTextStyle, Color, UnderlineStyle, Weight};
use vstd::prelude::*;

verus! {

/// The style that the sequences read so far leave active.
#[derive(Clone, Copy, Debug, PartialEq, Eq, Structural)]
pub struct SgrState {
    pub style: CanvasTextStyle,
    pub background_color: Option<Color>,
    pub bold: bool,
    pub dim: bool,
}

/// The style before the first sequence.
pub open spec fn initial_sgr() -> SgrState {
    SgrState {
        style: crate::style::plain_style(),
        background_color: None,
        bold: false,
        dim: false,
    }
}

impl Default for SgrState {
    fn default() -> (r: Self)
        ensures
            r == initial_sgr(),
    {
        SgrState {
            style: CanvasTextStyle::default(),
            background_color: None,
            bold: false,
            dim: false,
        }
    }
}

impl SgrState {
    /// The weight that bold and dim ask for; dim wins.
    pub open spec fn weight_of(bold: bool, dim: bool) -> Weight {
        if dim {
            Weight::Light
        } else if bold {
            Weight::Bold
        } else {
            Weight::Normal
        }
    }

    /// The state with another intensity.
    pub open spec fn with_intensity(self, bold: bool, dim: bool) -> SgrState {
        SgrState {
            bold,
            dim,
            style: CanvasTextStyle { weight: Self::weight_of(bold, dim), ..self.style },
            ..self
        }
    }

    /// The state with an underline of the given shape.
    pub open spec fn underlined(self, underline_style: UnderlineStyle) -> SgrState {
        SgrState {
            style: CanvasTextStyle { underline: true, underline_style, ..self.style },
            ..self
        }
    }

    /// Forgets everything but the defaults.
    pub fn reset_sgr(&mut self)
        ensures
            *final(self) == initial_sgr(),
    {
        *self = SgrState::default();
    }

    /// Sets the weight that bold and dim ask for.
    pub fn update_intensity(&mut self)
        ensures
            *final(self) == old(self).with_intensity(old(self).bold, old(self).dim),
    {
        self.style.weight = if self.dim {
            Weight::Light
        } else if self.bold {
            Weight::Bold
        } else {
            Weight::Normal
        };
    }
}

/// One parameter of a sequence.
#[derive(Debug, PartialEq, Eq)]
pub struct SgrParam {
    /// The number before the first colon.
    pub value: Option<i32>,
    /// The numbers after it.
    pub subparams: Vec<i32>,
    /// Whether there is a colon.
    pub colon: bool,
}

/// What an [`SgrParam`] holds.
pub struct SgrParamModel {
    pub value: Option<i32>,
    pub subparams: Seq<i32>,
    pub colon: bool,
}

impl View for SgrParam {
    type V = SgrParamModel;

    open spec fn view(&self) -> SgrParamModel {
        SgrParamModel { value: self.value, subparams: self.subparams@, colon: self.colon }
    }
}

/// What a list of parameters holds.
pub open spec fn models(params: Seq<SgrParam>) -> Seq<SgrParamModel> {
    params.map_values(|p: SgrParam| p@)
}

/// Whether a character is a decimal digit.
pub open spec fn is_digit(c: char) -> bool {
    '0' <= c && c <= '9'
}

/// The digits of a text, read as a decimal number.
pub open spec fn digits_value(text: Seq<char>) -> int
    decreases text.len(),
{
    if text.len() == 0 {
        0
    } else if is_digit(text.last()) {
        10 * digits_value(text.drop_last()) + (text.last() as u32 - '0' as u32)
    } else {
        digits_value(text.drop_last())
    }
}

/// Whether a text has a digit.
pub open spec fn has_digit(text: Seq<char>) -> bool {
    exists|i: int| 0 <= i < text.len() && is_digit(#[trigger] text[i])
}

/// The number that a text spells, other characters aside; none where it has no
/// digit or the number is too large.
pub open spec fn number_of(text: Seq<char>) -> Option<i32> {
    if has_digit(text) && digits_value(text) <= i32::MAX {
        Some(digits_value(text) as i32)
    } else {
        None
    }
}

/// The numbers that the pieces spell, pieces without one left out.
pub open spec fn numbers_of(pieces: Seq<Seq<char>>) -> Seq<i32>
    decreases pieces.len(),
{
    if pieces.len() == 0 {
        Seq::empty()
    } else {
        let before: Seq<i32> = numbers_of(pieces.drop_last());
        match number_of(pieces.last()) {
            Some(number) => before.push(number),
            None => before,
        }
    }
}

/// A parameter: numbers separated by colons.
pub open spec fn param_of(field: Seq<char>) -> SgrParamModel {
    let pieces: Seq<Seq<char>> = crate::strings::split(field, ':');
    SgrParamModel {
        value: number_of(pieces[0]),
        subparams: numbers_of(pieces.skip(1)),
        colon: pieces.len() > 1,
    }
}

/// The parameters of a sequence: fields separated by semicolons. A sequence
/// without any has the single parameter zero.
pub open spec fn params_of(text: Seq<char>) -> Seq<SgrParamModel> {
    if text.len() == 0 {
        seq![SgrParamModel { value: Some(0i32), subparams: Seq::empty(), colon: false }]
    } else {
        crate::strings::split(text, ';').map_values(|field: Seq<char>| param_of(field))
    }
}

proof fn lemma_digits_nonnegative(text: Seq<char>)
    ensures
        digits_value(text) >= 0,
    decreases text.len(),
{
    if text.len() > 0 {
        lemma_digits_nonnegative(text.drop_last());
    }
}

proof fn lemma_digits_prefix(text: Seq<char>, count: int)
    requires
        0 <= count <= text.len(),
    ensures
        digits_value(text.take(count)) <= digits_value(text),
    decreases text.len(),
{
    lemma_digits_nonnegative(text);
    if count < text.len() {
        lemma_digits_prefix(text.drop_last(), count);
        lemma_digits_nonnegative(text.drop_last());
        assert(text.drop_last().take(count) =~= text.take(count));
    } else {
        assert(text.take(count) =~= text);
    }
}

/// The number that a text spells, other characters aside.
pub fn parse_number(text: &str) -> (number: Option<i32>)
    ensures
        number == number_of(text@),
{
    let chars = chars_of(text);
    let mut seen = false;
    let mut value: i64 = 0;
    let mut i: usize = 0;
    while i < chars.len()
        invariant
            i <= chars@.len(),
            chars@ == text@,
            value == digits_value(chars@.take(i as int)),
            0 <= value <= i32::MAX,
            seen == has_digit(chars@.take(i as int)),
        decreases chars@.len() - i,
    {
        let c = chars[i];
        let ghost before = chars@.take(i as int);
        let ghost after = chars@.take(i + 1);
        proof {
            assert(after.drop_last() =~= before);
            assert(after.last() == c);
            if has_digit(before) {
                let k: int = choose|k: int| 0 <= k < before.len() && is_digit(#[trigger] before[k]);
                assert(is_digit(after[k]));
            }
            if is_digit(c) {
                assert(is_digit(after[i as int]));
            }
            if has_digit(after) && !is_digit(c) {
                let k: int = choose|k: int| 0 <= k < after.len() && is_digit(#[trigger] after[k]);
                assert(is_digit(before[k]));
            }
        }
        if c >= '0' && c <= '9' {
            seen = true;
            value = 10 * value + (c as u32 as i64 - '0' as u32 as i64);
            if value > i32::MAX as i64 {
                proof {
                    lemma_digits_prefix(chars@, i + 1);
                }
                return None;
            }
        }
        i = i + 1;
    }
    assert(chars@.take(i as int) =~= text@);
    if seen {
        Some(value as i32)
    } else {
        None
    }
}

/// Reads one parameter.
pub fn parse_sgr_param(field: &str) -> (param: SgrParam)
    ensures
        param@ == param_of(field@),
{
    let pieces = split_on(field, ':');
    let ghost texts = crate::strings::texts(pieces@);
    proof {
        crate::strings::lemma_split_nonempty(field@, ':');
        assert(texts.len() == pieces@.len());
    }
    let mut subparams: Vec<i32> = Vec::new();
    let mut i: usize = 1;
    while i < pieces.len()
        invariant
            1 <= i <= pieces@.len(),
            texts == crate::strings::texts(pieces@),
            subparams@ == numbers_of(texts.skip(1).take(i - 1)),
        decreases pieces@.len() - i,
    {
        proof {
            let taken = texts.skip(1).take(i as int);
            assert(taken.drop_last() =~= texts.skip(1).take(i - 1));
            assert(taken.last() == pieces@[i as int]@);
        }
        if let Some(number) = parse_number(pieces[i].as_str()) {
            subparams.push(number);
        }
        i = i + 1;
    }
    assert(texts.skip(1).take(i - 1) =~= texts.skip(1));
    assert(texts[0] == pieces@[0]@);
    SgrParam { value: parse_number(pieces[0].as_str()), subparams, colon: pieces.len() > 1 }
}

/// Reads the parameters of a sequence.
pub fn parse_sgr_params(params: &str) -> (result: Vec<SgrParam>)
    ensures
        models(result@) == params_of(params@),
{
    let mut result: Vec<SgrParam> = Vec::new();
    if params.is_empty() {
        result.push(SgrParam { value: Some(0), subparams: Vec::new(), colon: false });
        assert(models(result@) =~= params_of(params@));
        return result;
    }
    let fields = split_on(params, ';');
    let ghost texts = crate::strings::texts(fields@);
    let mut i: usize = 0;
    while i < fields.len()
        invariant
            i <= fields@.len(),
            texts == crate::strings::texts(fields@),
            models(result@) == texts.take(i as int).map_values(|field: Seq<char>| param_of(field)),
        decreases fields@.len() - i,
    {
        let param = parse_sgr_param(fields[i].as_str());
        let ghost before = models(result@);
        result.push(param);
        assert(models(result@) =~= before.push(param@));
        i = i + 1;
        assert(models(result@) =~= texts.take(i as int).map_values(
            |field: Seq<char>| param_of(field),
        ));
    }
    assert(texts.take(i as int) =~= texts);
    result
}

/// The standard color with the given number.
#[verifier::opaque]
pub open spec fn standard_color(code: int, bright: bool) -> Option<Color> {
    if code == 0 {
        Some(
            if bright {
                Color::DarkGrey
            } else {
                Color::Black
            },
        )
    } else if code == 1 {
        Some(
            if bright {
                Color::Red
            } else {
                Color::DarkRed
            },
        )
    } else if code == 2 {
        Some(
            if bright {
                Color::Green
            } else {
                Color::DarkGreen
            },
        )
    } else if code == 3 {
        Some(
            if bright {
                Color::Yellow
            } else {
                Color::DarkYellow
            },
        )
    } else if code == 4 {
        Some(
            if bright {
                Color::Blue
            } else {
                Color::DarkBlue
            },
        )
    } else if code == 5 {
        Some(
            if bright {
                Color::Magenta
            } else {
                Color::DarkMagenta
            },
        )
    } else if code == 6 {
        Some(
            if bright {
                Color::Cyan
            } else {
                Color::DarkCyan
            },
        )
    } else if code == 7 {
        Some(
            if bright {
                Color::White
            } else {
                Color::Grey
            },
        )
    } else {
        None
    }
}

/// The standard color with the given number.
pub fn basic_color(code: i32, bright: bool) -> (color: Option<Color>)
    ensures
        color == standard_color(code as int, bright),
{
    reveal(standard_color);
    match (code, bright) {
        (0, false) => Some(Color::Black),
        (1, false) => Some(Color::DarkRed),
        (2, false) => Some(Color::DarkGreen),
        (3, false) => Some(Color::DarkYellow),
        (4, false) => Some(Color::DarkBlue),
        (5, false) => Some(Color::DarkMagenta),
        (6, false) => Some(Color::DarkCyan),
        (7, false) => Some(Color::Grey),
        (0, true) => Some(Color::DarkGrey),
        (1, true) => Some(Color::Red),
        (2, true) => Some(Color::Green),
        (3, true) => Some(Color::Yellow),
        (4, true) => Some(Color::Blue),
        (5, true) => Some(Color::Magenta),
        (6, true) => Some(Color::Cyan),
        (7, true) => Some(Color::White),
        _ => None,
    }
}

/// Whether a number is a color component.
pub open spec fn is_byte(number: int) -> bool {
    0 <= number <= 255
}

/// The color with the given components, all of which must be bytes.
pub open spec fn rgb_of(r: int, g: int, b: int) -> Option<Color> {
    if is_byte(r) && is_byte(g) && is_byte(b) {
        Some(Color::Rgb { r: r as u8, g: g as u8, b: b as u8 })
    } else {
        None
    }
}

/// The palette color with the given number, which must be a byte.
pub open spec fn indexed_of(index: int) -> Option<Color> {
    if is_byte(index) {
        Some(Color::AnsiValue(index as u8))
    } else {
        None
    }
}

/// The color that the subparameters of one parameter spell: `5:index`,
/// `2:space:r:g:b` or `2:r:g:b`.
pub open spec fn colon_color(subparams: Seq<i32>) -> Option<Color> {
    if subparams.len() >= 2 && subparams[0] == 5 {
        indexed_of(subparams[1] as int)
    } else if subparams.len() >= 5 && subparams[0] == 2 {
        rgb_of(subparams[2] as int, subparams[3] as int, subparams[4] as int)
    } else if subparams.len() == 4 && subparams[0] == 2 {
        rgb_of(subparams[1] as int, subparams[2] as int, subparams[3] as int)
    } else {
        None
    }
}

/// The value of a parameter that may not be there.
pub open spec fn value_at(params: Seq<SgrParamModel>, i: int) -> Option<i32> {
    if 0 <= i < params.len() {
        params[i].value
    } else {
        None
    }
}

/// The extended color that starts at a parameter, and how many parameters it
/// takes up.
pub open spec fn extended_color(params: Seq<SgrParamModel>, i: int) -> Option<(Color, int)> {
    if params[i].colon {
        match colon_color(params[i].subparams) {
            Some(color) => Some((color, 1int)),
            None => None,
        }
    } else if value_at(params, i + 1) == Some(5i32) && value_at(params, i + 2) is Some {
        match indexed_of(value_at(params, i + 2)->0 as int) {
            Some(color) => Some((color, 3int)),
            None => None,
        }
    } else if value_at(params, i + 1) == Some(2i32) && value_at(params, i + 2) is Some && value_at(
        params,
        i + 3,
    ) is Some && value_at(params, i + 4) is Some {
        match rgb_of(
            value_at(params, i + 2)->0 as int,
            value_at(params, i + 3)->0 as int,
            value_at(params, i + 4)->0 as int,
        ) {
            Some(color) => Some((color, 5int)),
            None => None,
        }
    } else {
        None
    }
}

/// The color with the given components, all of which must be bytes.
fn rgb_color(r: i32, g: i32, b: i32) -> (color: Option<Color>)
    ensures
        color == rgb_of(r as int, g as int, b as int),
{
    if r >= 0 && r <= 255 && g >= 0 && g <= 255 && b >= 0 && b <= 255 {
        Some(Color::Rgb { r: r as u8, g: g as u8, b: b as u8 })
    } else {
        None
    }
}

/// The palette color with the given number, which must be a byte.
fn indexed_color(index: i32) -> (color: Option<Color>)
    ensures
        color == indexed_of(index as int),
{
    if index >= 0 && index <= 255 {
        Some(Color::AnsiValue(index as u8))
    } else {
        None
    }
}

/// The value of a parameter that may not be there.
fn param_value(params: &Vec<SgrParam>, i: usize) -> (value: Option<i32>)
    ensures
        value == value_at(models(params@), i as int),
{
    if i < params.len() {
        params[i].value
    } else {
        None
    }
}

/// The extended color that starts at a parameter, and how many parameters it
/// takes up.
pub fn parse_extended_color(params: &Vec<SgrParam>, idx: usize) -> (result: Option<(Color, usize)>)
    requires
        idx < params@.len(),
    ensures
        match result {
            Some((color, consumed)) => {
                &&& extended_color(models(params@), idx as int) == Some((color, consumed as int))
                &&& 1 <= consumed
                &&& idx + consumed <= params@.len()
            },
            None => extended_color(models(params@), idx as int) is None,
        },
{
    let param = &params[idx];
    assert(models(params@)[idx as int] == param@);
    if param.colon {
        let subparams = &param.subparams;
        let color = if subparams.len() >= 2 && subparams[0] == 5 {
            indexed_color(subparams[1])
        } else if subparams.len() >= 5 && subparams[0] == 2 {
            rgb_color(subparams[2], subparams[3], subparams[4])
        } else if subparams.len() == 4 && subparams[0] == 2 {
            rgb_color(subparams[1], subparams[2], subparams[3])
        } else {
            None
        };
        return match color {
            Some(color) => Some((color, 1)),
            None => None,
        };
    }
    if params.len() - idx < 3 {
        return None;
    }
    let mode: Option<i32> = param_value(params, idx + 1);
    if mode == Some(5) {
        if let Some(index) = param_value(params, idx + 2) {
            if let Some(color) = indexed_color(index) {
                return Some((color, 3));
            }
        }
        return None;
    }
    if mode == Some(2) && params.len() - idx >= 5 {
        if let (Some(r), Some(g), Some(b)) = (
            param_value(params, idx + 2),
            param_value(params, idx + 3),
            param_value(params, idx + 4),
        ) {
            if let Some(color) = rgb_color(r, g, b) {
                return Some((color, 5));
            }
        }
    }
    None
}

/// The underline that `4` asks for, with its subparameters.
pub open spec fn underline_applied(state: SgrState, param: SgrParamModel) -> SgrState {
    let shape: int = if param.colon && param.subparams.len() > 0 {
        param.subparams[0] as int
    } else {
        1
    };
    if shape == 0 {
        SgrState { style: CanvasTextStyle { underline: false, ..state.style }, ..state }
    } else if shape == 2 {
        state.underlined(UnderlineStyle::Double)
    } else if shape == 3 {
        state.underlined(UnderlineStyle::Curly)
    } else if shape == 4 {
        state.underlined(UnderlineStyle::Dotted)
    } else if shape == 5 {
        state.underlined(UnderlineStyle::Dashed)
    } else {
        state.underlined(UnderlineStyle::Single)
    }
}

/// The style after a code that switches one attribute on or off.
#[verifier::opaque]
pub open spec fn attribute_applied(style: CanvasTextStyle, code: int) -> CanvasTextStyle {
    if code == 3 {
        CanvasTextStyle { italic: true, ..style }
    } else if code == 5 || code == 6 {
        CanvasTextStyle { blink: true, ..style }
    } else if code == 7 {
        CanvasTextStyle { invert: true, ..style }
    } else if code == 8 {
        CanvasTextStyle { hidden: true, ..style }
    } else if code == 9 {
        CanvasTextStyle { strikethrough: true, ..style }
    } else if code == 23 {
        CanvasTextStyle { italic: false, ..style }
    } else if code == 24 {
        CanvasTextStyle { underline: false, ..style }
    } else if code == 25 {
        CanvasTextStyle { blink: false, ..style }
    } else if code == 27 {
        CanvasTextStyle { invert: false, ..style }
    } else if code == 28 {
        CanvasTextStyle { hidden: false, ..style }
    } else if code == 29 {
        CanvasTextStyle { strikethrough: false, ..style }
    } else if code == 53 {
        CanvasTextStyle { overline: true, ..style }
    } else if code == 55 {
        CanvasTextStyle { overline: false, ..style }
    } else if code == 59 {
        CanvasTextStyle { underline_color: None, ..style }
    } else {
        style
    }
}

/// Whether a code sets or resets the text color.
pub open spec fn is_text_color(code: int) -> bool {
    30 <= code <= 37 || code == 39 || 90 <= code <= 97
}

/// Whether a code sets or resets the background color.
pub open spec fn is_background_color(code: int) -> bool {
    40 <= code <= 47 || code == 49 || 100 <= code <= 107
}

/// The color that a code asks for, where `base` is the first of its normal codes;
/// the bright codes follow sixty later.
pub open spec fn color_of_code(code: int, base: int) -> Option<Color> {
    if code >= base + 60 {
        standard_color(code - base - 60, true)
    } else {
        standard_color(code - base, false)
    }
}

/// The state after one parameter that stands on its own.
#[verifier::opaque]
pub open spec fn simple_applied(state: SgrState, param: SgrParamModel) -> SgrState {
    let code: int = match param.value {
        Some(value) => value as int,
        None => 0,
    };
    if code == 0 {
        initial_sgr()
    } else if code == 1 {
        state.with_intensity(true, state.dim)
    } else if code == 2 {
        state.with_intensity(state.bold, true)
    } else if code == 22 {
        state.with_intensity(false, false)
    } else if code == 4 {
        underline_applied(state, param)
    } else if code == 21 {
        state.underlined(UnderlineStyle::Double)
    } else if is_text_color(code) {
        SgrState {
            style: CanvasTextStyle { color: color_of_code(code, 30), ..state.style },
            ..state
        }
    } else if is_background_color(code) {
        SgrState { background_color: color_of_code(code, 40), ..state }
    } else {
        SgrState { style: attribute_applied(state.style, code), ..state }
    }
}

/// Whether a parameter introduces an extended color.
pub open spec fn introduces_color(param: SgrParamModel) -> bool {
    param.value == Some(38i32) || param.value == Some(48i32) || param.value == Some(58i32)
}

/// The state after an extended color: of the text, its background or its
/// underline.
pub open spec fn color_applied(state: SgrState, param: SgrParamModel, color: Color) -> SgrState {
    if param.value == Some(38i32) {
        SgrState { style: CanvasTextStyle { color: Some(color), ..state.style }, ..state }
    } else if param.value == Some(48i32) {
        SgrState { background_color: Some(color), ..state }
    } else {
        SgrState {
            style: CanvasTextStyle { underline_color: Some(color), ..state.style },
            ..state
        }
    }
}

/// The state after the parameters from `i` on. Parameters that spell no extended
/// color after `38`, `48` or `58` are read on their own.
pub open spec fn sgr_applied(state: SgrState, params: Seq<SgrParamModel>, i: int) -> SgrState
    decreases params.len() - i,
{
    if i < 0 || i >= params.len() {
        state
    } else if introduces_color(params[i]) && extended_color(params, i) is Some {
        let (color, consumed): (Color, int) = extended_color(params, i)->0;
        if consumed >= 1 {
            sgr_applied(color_applied(state, params[i], color), params, i + consumed)
        } else {
            state
        }
    } else {
        sgr_applied(simple_applied(state, params[i]), params, i + 1)
    }
}

/// The style after a code that switches one attribute on or off.
fn apply_attribute(style: CanvasTextStyle, code: i32) -> (r: CanvasTextStyle)
    ensures
        r == attribute_applied(style, code as int),
{
    reveal(attribute_applied);
    let mut next = style;
    match code {
        3 => {
            next.italic = true;
        },
        5 | 6 => {
            next.blink = true;
        },
        7 => {
            next.invert = true;
        },
        8 => {
            next.hidden = true;
        },
        9 => {
            next.strikethrough = true;
        },
        23 => {
            next.italic = false;
        },
        24 => {
            next.underline = false;
        },
        25 => {
            next.blink = false;
        },
        27 => {
            next.invert = false;
        },
        28 => {
            next.hidden = false;
        },
        29 => {
            next.strikethrough = false;
        },
        53 => {
            next.overline = true;
        },
        55 => {
            next.overline = false;
        },
        59 => {
            next.underline_color = None;
        },
        _ => {},
    }
    next
}

/// The underline that `4` asks for, with its subparameters.
fn apply_underline(state: SgrState, param: &SgrParam) -> (r: SgrState)
    ensures
        r == underline_applied(state, param@),
{
    let shape: i32 = if param.colon && param.subparams.len() > 0 {
        param.subparams[0]
    } else {
        1
    };
    let mut next = state;
    if shape == 0 {
        next.style.underline = false;
    } else {
        next.style.underline = true;
        next.style.underline_style = match shape {
            2 => UnderlineStyle::Double,
            3 => UnderlineStyle::Curly,
            4 => UnderlineStyle::Dotted,
            5 => UnderlineStyle::Dashed,
            _ => UnderlineStyle::Single,
        };
    }
    next
}

/// The color that a code asks for, where `base` is the first of its normal codes.
fn code_color(code: i32, base: i32) -> (color: Option<Color>)
    requires
        0 <= code <= 200,
        0 <= base <= 100,
    ensures
        color == color_of_code(code as int, base as int),
{
    if code >= base + 60 {
        basic_color(code - base - 60, true)
    } else {
        basic_color(code - base, false)
    }
}

/// The state after one parameter that stands on its own.
fn apply_simple(state: SgrState, param: &SgrParam) -> (r: SgrState)
    ensures
        r == simple_applied(state, param@),
{
    reveal(simple_applied);
    let mut next = state;
    let code: i32 = match param.value {
        Some(value) => value,
        None => 0,
    };
    if code == 0 {
        next.reset_sgr();
    } else if code == 1 {
        next.bold = true;
        next.update_intensity();
    } else if code == 2 {
        next.dim = true;
        next.update_intensity();
    } else if code == 22 {
        next.bold = false;
        next.dim = false;
        next.update_intensity();
    } else if code == 4 {
        next = apply_underline(state, param);
    } else if code == 21 {
        next.style.underline = true;
        next.style.underline_style = UnderlineStyle::Double;
    } else if (code >= 30 && code <= 37) || code == 39 || (code >= 90 && code <= 97) {
        next.style.color = code_color(code, 30);
    } else if (code >= 40 && code <= 47) || code == 49 || (code >= 100 && code <= 107) {
        next.background_color = code_color(code, 40);
    } else {
        next.style = apply_attribute(state.style, code);
    }
    next
}

/// Applies the parameters of a sequence.
pub fn apply_sgr(state: &mut SgrState, params: &Vec<SgrParam>)
    ensures
        *final(state) == sgr_applied(*old(state), models(params@), 0),
{
    let ghost all = models(params@);
    let mut idx: usize = 0;
    while idx < params.len()
        invariant
            idx <= params@.len(),
            all == models(params@),
            sgr_applied(*old(state), all, 0) == sgr_applied(*state, all, idx as int),
        decreases params@.len() - idx,
    {
        let param = &params[idx];
        assert(all[idx as int] == param@);
        let mut consumed: usize = 0;
        if let Some(code) = param.value {
            if code == 38 || code == 48 || code == 58 {
                if let Some(extended) = parse_extended_color(params, idx) {
                    if code == 38 {
                        state.style.color = Some(extended.0);
                    } else if code == 48 {
                        state.background_color = Some(extended.0);
                    } else {
                        state.style.underline_color = Some(extended.0);
                    }
                    consumed = extended.1;
                }
            }
        }
        if consumed == 0 {
            *state = apply_simple(*state, param);
            consumed = 1;
        }
        idx = idx + consumed;
    }
}

/// A reset forgets every earlier style, whatever it was.
pub proof fn lemma_reset_forgets(first: SgrState, second: SgrState)
    ensures
        sgr_applied(first, params_of(Seq::empty()), 0) == initial_sgr(),
        sgr_applied(first, params_of(Seq::empty()), 0) == sgr_applied(
            second,
            params_of(Seq::empty()),
            0,
        ),
{
    reveal(simple_applied);
    let params = params_of(Seq::empty());
    assert(params.len() == 1);
    assert(sgr_applied(initial_sgr(), params, 1) == initial_sgr());
    assert(sgr_applied(first, params, 0) == sgr_applied(simple_applied(first, params[0]), params, 1));
    assert(sgr_applied(second, params, 0) == sgr_applied(
        simple_applied(second, params[0]),
        params,
        1,
    ));
}

/// A parameter that stands on its own, alone in a sequence.
proof fn lemma_single_param(state: SgrState, param: SgrParamModel)
    requires
        !introduces_color(param),
    ensures
        sgr_applied(state, seq![param], 0) == simple_applied(state, param),
{
    let params = seq![param];
    assert(sgr_applied(simple_applied(state, param), params, 1) == simple_applied(state, param));
    assert(params[0] == param);
}

/// The codes 30 to 37 and 90 to 97 set the text color to the standard color with the number
/// of their last digit, normal or bright, and change nothing else; 39 takes it back.
pub proof fn lemma_text_colors(state: SgrState, param: SgrParamModel, number: int)
    requires
        0 <= number < 8,
    ensures
        ({
            let normal = seq![
                Color::Black,
                Color::DarkRed,
                Color::DarkGreen,
                Color::DarkYellow,
                Color::DarkBlue,
                Color::DarkMagenta,
                Color::DarkCyan,
                Color::Grey,
            ];
            let bright = seq![
                Color::DarkGrey,
                Color::Red,
                Color::Green,
                Color::Yellow,
                Color::Blue,
                Color::Magenta,
                Color::Cyan,
                Color::White,
            ];
            let after = sgr_applied(state, seq![param], 0);
            let colored = |color: Option<Color>|
                (SgrState { style: CanvasTextStyle { color, ..state.style }, ..state });
            &&& param.value == Some((30 + number) as i32) ==> after == colored(
                Some(normal[number]),
            )
            &&& param.value == Some((90 + number) as i32) ==> after == colored(
                Some(bright[number]),
            )
            &&& param.value == Some(39i32) ==> after == colored(None)
        }),
{
    reveal(standard_color);
    reveal(simple_applied);
    if !introduces_color(param) {
        lemma_single_param(state, param);
    }
}

/// The codes 40 to 47 and 100 to 107 set the background to the standard color with the number
/// of their last digit, normal or bright, and change nothing else; 49 takes it back.
pub proof fn lemma_background_colors(state: SgrState, param: SgrParamModel, number: int)
    requires
        0 <= number < 8,
    ensures
        ({
            let normal = seq![
                Color::Black,
                Color::DarkRed,
                Color::DarkGreen,
                Color::DarkYellow,
                Color::DarkBlue,
                Color::DarkMagenta,
                Color::DarkCyan,
                Color::Grey,
            ];
            let bright = seq![
                Color::DarkGrey,
                Color::Red,
                Color::Green,
                Color::Yellow,
                Color::Blue,
                Color::Magenta,
                Color::Cyan,
                Color::White,
            ];
            let after = sgr_applied(state, seq![param], 0);
            &&& param.value == Some((40 + number) as i32) ==> after == (SgrState {
                background_color: Some(normal[number]),
                ..state
            })
            &&& param.value == Some((100 + number) as i32) ==> after == (SgrState {
                background_color: Some(bright[number]),
                ..state
            })
            &&& param.value == Some(49i32) ==> after == (SgrState {
                background_color: None,
                ..state
            })
        }),
{
    reveal(standard_color);
    reveal(simple_applied);
    if !introduces_color(param) {
        lemma_single_param(state, param);
    }
}

/// A code that sets an attribute sets that one alone, and the code twenty later takes it
/// back: 3 and 23 italics, 5, 6 and 25 blinking, 7 and 27 inversion, 8 and 28 hiding, 9 and
/// 29 striking out, 53 and 55 the overline, 59 the color of the underline. The codes that
/// mean nothing change nothing.
pub proof fn lemma_attributes(state: SgrState, param: SgrParamModel, code: i32)
    requires
        param.value == Some(code),
    ensures
        ({
            let after = sgr_applied(state, seq![param], 0);
            let style = state.style;
            let styled = |style: CanvasTextStyle| (SgrState { style, ..state });
            &&& code == 3 || code == 23 ==> after == styled(
                (CanvasTextStyle { italic: code == 3, ..style }),
            )
            &&& code == 5 || code == 6 || code == 25 ==> after == styled(
                (CanvasTextStyle { blink: code != 25, ..style }),
            )
            &&& code == 7 || code == 27 ==> after == styled(
                (CanvasTextStyle { invert: code == 7, ..style }),
            )
            &&& code == 8 || code == 28 ==> after == styled(
                (CanvasTextStyle { hidden: code == 8, ..style }),
            )
            &&& code == 9 || code == 29 ==> after == styled(
                (CanvasTextStyle { strikethrough: code == 9, ..style }),
            )
            &&& code == 53 || code == 55 ==> after == styled(
                (CanvasTextStyle { overline: code == 53, ..style }),
            )
            &&& code == 59 ==> after == styled((CanvasTextStyle { underline_color: None, ..style }))
            &&& code < 0 || 10 <= code <= 20 || code == 26 || 50 <= code <= 52 || code == 54
                || code == 56 || code == 57 || 60 <= code <= 89 || 98 <= code <= 99 || code > 107
                ==> after == state
        }),
{
    reveal(attribute_applied);
    reveal(simple_applied);
    if !introduces_color(param) {
        lemma_single_param(state, param);
    }
}

/// Bold and dim add up until 22 takes both back: text is light where it was made dim, bold
/// where it was made bold and not dim, and of normal weight otherwise.
pub proof fn lemma_intensity(state: SgrState, param: SgrParamModel, code: i32)
    requires
        param.value == Some(code),
        code == 1 || code == 2 || code == 22,
    ensures
        ({
            let after = sgr_applied(state, seq![param], 0);
            let bold = code != 22 && (code == 1 || state.bold);
            let dim = code != 22 && (code == 2 || state.dim);
            &&& after.bold == bold && after.dim == dim
            &&& dim ==> after.style.weight == Weight::Light
            &&& bold && !dim ==> after.style.weight == Weight::Bold
            &&& !bold && !dim ==> after.style.weight == Weight::Normal
            &&& after.background_color == state.background_color
            &&& after.style == (CanvasTextStyle { weight: after.style.weight, ..state.style })
        }),
{
    reveal(simple_applied);
    lemma_single_param(state, param);
}

/// 4 underlines, with the shape that its first subparameter names, 21 underlines twice, and
/// 24 and 4:0 take the underline away. Nothing else changes.
pub proof fn lemma_underlines(state: SgrState, param: SgrParamModel, code: i32)
    requires
        param.value == Some(code),
        code == 4 || code == 21 || code == 24,
    ensures
        ({
            let after = sgr_applied(state, seq![param], 0);
            let shaped = code == 4 && param.colon && param.subparams.len() > 0;
            let shape = param.subparams[0];
            let style = after.style;
            &&& style.underline == (code != 24 && !(shaped && shape == 0))
            &&& !style.underline ==> style.underline_style == state.style.underline_style
            &&& code == 21 ==> style.underline_style == UnderlineStyle::Double
            &&& code == 4 && !shaped ==> style.underline_style == UnderlineStyle::Single
            &&& shaped && shape == 1 ==> style.underline_style == UnderlineStyle::Single
            &&& shaped && shape == 2 ==> style.underline_style == UnderlineStyle::Double
            &&& shaped && shape == 3 ==> style.underline_style == UnderlineStyle::Curly
            &&& shaped && shape == 4 ==> style.underline_style == UnderlineStyle::Dotted
            &&& shaped && shape == 5 ==> style.underline_style == UnderlineStyle::Dashed
            &&& shaped && (shape < 0 || shape > 5) ==> style.underline_style
                == UnderlineStyle::Single
            &&& after == (SgrState {
                style: CanvasTextStyle {
                    underline: style.underline,
                    underline_style: style.underline_style,
                    ..state.style
                },
                ..state
            })
        }),
{
    reveal(attribute_applied);
    reveal(simple_applied);
    lemma_single_param(state, param);
}

/// 0 and a parameter without a number forget everything.
pub proof fn lemma_zero_resets(state: SgrState, param: SgrParamModel)
    requires
        param.value is None || param.value == Some(0i32),
    ensures
        ({
            let after = sgr_applied(state, seq![param], 0);
            &&& !after.bold && !after.dim && after.background_color is None
            &&& after.style.color is None && after.style.underline_color is None
            &&& after.style.weight == Weight::Normal
            &&& !after.style.underline && after.style.underline_style == UnderlineStyle::Single
            &&& !after.style.italic && !after.style.blink && !after.style.hidden
            &&& !after.style.strikethrough && !after.style.overline && !after.style.invert
        }),
{
    reveal(simple_applied);
    lemma_single_param(state, param);
}

/// What an extended color is set for: 38 the text, 48 the background, 58 the underline.
pub open spec fn extended_set(before: SgrState, after: SgrState, code: i32, color: Color) -> bool {
    &&& code == 38 ==> after == (SgrState {
        style: CanvasTextStyle { color: Some(color), ..before.style },
        ..before
    })
    &&& code == 48 ==> after == (SgrState { background_color: Some(color), ..before })
    &&& code == 58 ==> after == (SgrState {
        style: CanvasTextStyle { underline_color: Some(color), ..before.style },
        ..before
    })
}

/// `38;5;n` sets the palette color `n`, and `38;2;r;g;b` the color with these components; 48
/// and 58 do so for the background and the underline. What follows is read on its own.
pub proof fn lemma_extended_colors(
    state: SgrState,
    code: i32,
    numbers: (u8, u8, u8),
    params: Seq<SgrParamModel>,
)
    requires
        code == 38 || code == 48 || code == 58,
        params.len() >= 3,
        params[0].value == Some(code) && !params[0].colon,
    ensures
        params.len() == 3 && params[1].value == Some(5i32) && params[2].value == Some(
            numbers.0 as i32,
        ) ==> extended_set(
            state,
            sgr_applied(state, params, 0),
            code,
            Color::AnsiValue(numbers.0),
        ),
        params.len() == 5 && params[1].value == Some(2i32) && params[2].value == Some(
            numbers.0 as i32,
        ) && params[3].value == Some(numbers.1 as i32) && params[4].value == Some(numbers.2 as i32)
            ==> extended_set(
            state,
            sgr_applied(state, params, 0),
            code,
            (Color::Rgb { r: numbers.0, g: numbers.1, b: numbers.2 }),
        ),
{
    reveal_with_fuel(sgr_applied, 2);
}

/// `38:5:n`, `38:2:r:g:b` and `38:2:space:r:g:b` set the same colors as their forms with
/// semicolons do.
pub proof fn lemma_extended_colors_with_colons(
    state: SgrState,
    code: i32,
    numbers: (u8, u8, u8),
    param: SgrParamModel,
)
    requires
        code == 38 || code == 48 || code == 58,
        param.value == Some(code) && param.colon,
        param.subparams.len() >= 2,
    ensures
        ({
            let after = sgr_applied(state, seq![param], 0);
            let subs = param.subparams;
            &&& subs[0] == 5 && subs[1] == numbers.0 ==> extended_set(
                state,
                after,
                code,
                Color::AnsiValue(numbers.0),
            )
            &&& subs[0] == 2 && subs.len() == 4 && subs[1] == numbers.0 && subs[2] == numbers.1
                && subs[3] == numbers.2 ==> extended_set(
                state,
                after,
                code,
                (Color::Rgb { r: numbers.0, g: numbers.1, b: numbers.2 }),
            )
            &&& subs[0] == 2 && subs.len() == 5 && subs[2] == numbers.0 && subs[3] == numbers.1
                && subs[4] == numbers.2 ==> extended_set(
                state,
                after,
                code,
                (Color::Rgb { r: numbers.0, g: numbers.1, b: numbers.2 }),
            )
        }),
{
    reveal_with_fuel(sgr_applied, 2);
    assert(seq![param][0] == param);
}

proof fn lemma_applied_suffix(
    state: SgrState,
    first: Seq<SgrParamModel>,
    second: Seq<SgrParamModel>,
    i: int,
)
    requires
        0 <= i <= second.len(),
    ensures
        sgr_applied(state, first + second, first.len() + i) == sgr_applied(state, second, i),
    decreases second.len() - i,
{
    let all = first + second;
    let j: int = first.len() + i;
    if i < second.len() {
        assert(all[j] == second[i]);
        assert(value_at(all, j + 1) == value_at(second, i + 1));
        assert(value_at(all, j + 2) == value_at(second, i + 2));
        assert(value_at(all, j + 3) == value_at(second, i + 3));
        assert(value_at(all, j + 4) == value_at(second, i + 4));
        assert(extended_color(all, j) == extended_color(second, i));
        if introduces_color(second[i]) && extended_color(second, i) is Some {
            let (color, consumed): (Color, int) = extended_color(second, i)->0;
            assert(i + consumed <= second.len());
            lemma_applied_suffix(
                color_applied(state, second[i], color),
                first,
                second,
                i + consumed,
            );
        } else {
            lemma_applied_suffix(simple_applied(state, second[i]), first, second, i + 1);
        }
    }
}

proof fn lemma_applied_prefix(
    state: SgrState,
    first: Seq<SgrParamModel>,
    second: Seq<SgrParamModel>,
    i: int,
)
    requires
        0 <= i <= first.len(),
        forall|k: int| 0 <= k < first.len() ==> !introduces_color(#[trigger] first[k]),
    ensures
        sgr_applied(state, first + second, i) == sgr_applied(
            sgr_applied(state, first, i),
            second,
            0,
        ),
    decreases first.len() - i,
{
    if i < first.len() {
        assert((first + second)[i] == first[i]);
        lemma_applied_prefix(simple_applied(state, first[i]), first, second, i + 1);
    } else {
        lemma_applied_suffix(state, first, second, 0);
    }
}

/// Parameters in one sequence do what they do in two, one after the other, where the first
/// are 38, 48 or 58 nowhere.
pub proof fn lemma_parameters_add_up(
    state: SgrState,
    first: Seq<SgrParamModel>,
    second: Seq<SgrParamModel>,
)
    requires
        forall|k: int|
            0 <= k < first.len() ==> (#[trigger] first[k]).value != Some(38i32) && first[k].value
                != Some(48i32) && first[k].value != Some(58i32),
    ensures
        sgr_applied(state, first + second, 0) == sgr_applied(
            sgr_applied(state, first, 0),
            second,
            0,
        ),
{
    lemma_applied_prefix(state, first, second, 0);
}

/// A digit more multiplies a number by ten and adds the digit; a text of one digit is that
/// digit.
pub proof fn lemma_decimal_numbers(text: Seq<char>, digit: char)
    requires
        '0' <= digit <= '9',
    ensures
        text.len() == 0 ==> number_of(text.push(digit)) == Some((digit as u32 - '0' as u32) as i32),
        number_of(text) matches Some(number) ==> {
            let next: int = 10 * number + (digit as u32 - '0' as u32);
            number_of(text.push(digit)) == if next <= i32::MAX {
                Some(next as i32)
            } else {
                None
            }
        },
{
    let longer = text.push(digit);
    assert(longer.drop_last() =~= text);
    assert(is_digit(longer[text.len() as int]));
    lemma_digits_nonnegative(text);
    reveal_with_fuel(digits_value, 2);
}

/// A field without a colon is a parameter that is its number alone, and fields with
/// semicolons between them are parameters in the same order.
pub proof fn lemma_fields_are_parameters(fields: Seq<Seq<char>>)
    requires
        fields.len() > 0,
        fields.len() > 1 || fields[0].len() > 0,
        forall|i: int, k: int|
            0 <= i < fields.len() && 0 <= k < fields[i].len() ==> #[trigger] fields[i][k] != ';'
                && fields[i][k] != ':',
    ensures
        params_of(crate::strings::join(fields, ';')) == fields.map_values(
            |field: Seq<char>|
                (SgrParamModel {
                    value: number_of(field),
                    subparams: Seq::empty(),
                    colon: false,
                }),
        ),
{
    let text = crate::strings::join(fields, ';');
    crate::strings::lemma_split_undoes_join(fields, ';');
    assert(text.len() > 0) by {
        if text.len() == 0 {
            assert(crate::strings::split(text, ';') =~= seq![Seq::<char>::empty()]);
        }
    }
    let goal = fields.map_values(
        |field: Seq<char>|
            (SgrParamModel { value: number_of(field), subparams: Seq::empty(), colon: false }),
    );
    assert forall|i: int| 0 <= i < fields.len() implies #[trigger] params_of(text)[i]
        == goal[i] by {
        let field = fields[i];
        assert forall|k: int| 0 <= k < field.len() implies #[trigger] field[k] != ':' by {
            assert(fields[i][k] != ':');
        }
        crate::strings::lemma_split_whole(field, ':');
        let pieces = crate::strings::split(field, ':');
        assert(pieces.skip(1) =~= Seq::empty());
        assert(params_of(text)[i] == param_of(field));
    }
    assert(params_of(text) =~= goal);
}

proof fn lemma_all_numbers(pieces: Seq<Seq<char>>)
    requires
        forall|i: int| 0 <= i < pieces.len() ==> number_of(#[trigger] pieces[i]) is Some,
    ensures
        numbers_of(pieces) == Seq::new(pieces.len(), |i: int| number_of(pieces[i])->0),
    decreases pieces.len(),
{
    let goal = Seq::new(pieces.len(), |i: int| number_of(pieces[i])->0);
    if pieces.len() > 0 {
        assert forall|i: int| 0 <= i < pieces.drop_last().len() implies number_of(
            #[trigger] pieces.drop_last()[i],
        ) is Some by {
            assert(pieces.drop_last()[i] == pieces[i]);
        }
        lemma_all_numbers(pieces.drop_last());
        assert(pieces.last() == pieces[pieces.len() - 1]);
    }
    assert(numbers_of(pieces) =~= goal);
}

/// Numbers with colons between them are one parameter: the first is its value, the others
/// its subparameters in the same order.
pub proof fn lemma_colons_separate_subparameters(numbers: Seq<Seq<char>>)
    requires
        numbers.len() > 1,
        forall|i: int| 0 <= i < numbers.len() ==> number_of(#[trigger] numbers[i]) is Some,
        forall|i: int, k: int|
            0 <= i < numbers.len() && 0 <= k < numbers[i].len() ==> #[trigger] numbers[i][k]
                != ':',
    ensures
        ({
            let param = param_of(crate::strings::join(numbers, ':'));
            &&& param.colon
            &&& param.value == number_of(numbers[0])
            &&& param.subparams.len() == numbers.len() - 1
            &&& forall|i: int|
                1 <= i < numbers.len() ==> Some(param.subparams[i - 1]) == number_of(
                    #[trigger] numbers[i],
                )
        }),
{
    crate::strings::lemma_split_undoes_join(numbers, ':');
    let rest = numbers.skip(1);
    assert forall|i: int| 0 <= i < rest.len() implies number_of(#[trigger] rest[i]) is Some by {
        assert(rest[i] == numbers[i + 1]);
    }
    lemma_all_numbers(rest);
    let param = param_of(crate::strings::join(numbers, ':'));
    assert forall|i: int| 1 <= i < numbers.len() implies Some(param.subparams[i - 1])
        == number_of(#[trigger] numbers[i]) by {
        assert(rest[i - 1] == numbers[i]);
    }
}

/// A character that is no digit does not change the number that a text spells.
pub proof fn lemma_other_characters_do_not_count(text: Seq<char>, c: char)
    requires
        !('0' <= c <= '9'),
    ensures
        number_of(text.push(c)) == number_of(text),
{
    let longer = text.push(c);
    assert(longer.drop_last() =~= text);
    if has_digit(text) {
        let k = choose|k: int| 0 <= k < text.len() && is_digit(#[trigger] text[k]);
        assert(is_digit(longer[k]));
    }
    if has_digit(longer) {
        let k = choose|k: int| 0 <= k < longer.len() && is_digit(#[trigger] longer[k]);
        assert(is_digit(text[k]));
    }
}

/// What follows an extended color is read as if it stood alone: three parameters make up a palette
/// color, five one of components.
#[verifier::rlimit(50)]
pub proof fn lemma_extended_color_is_passed(
    state: SgrState,
    colored: SgrState,
    code: i32,
    numbers: (u8, u8, u8),
    params: Seq<SgrParamModel>,
)
    requires
        code == 38 || code == 48 || code == 58,
        params.len() >= 3,
        params[0].value == Some(code) && !params[0].colon,
    ensures
        params[1].value == Some(5i32) && params[2].value == Some(numbers.0 as i32)
            && extended_set(state, colored, code, Color::AnsiValue(numbers.0)) ==> sgr_applied(
            state,
            params,
            0,
        ) == sgr_applied(colored, params.skip(3), 0),
        params.len() >= 5 && params[1].value == Some(2i32) && params[2].value == Some(
            numbers.0 as i32,
        ) && params[3].value == Some(numbers.1 as i32) && params[4].value == Some(numbers.2 as i32)
            && extended_set(
            state,
            colored,
            code,
            (Color::Rgb { r: numbers.0, g: numbers.1, b: numbers.2 }),
        ) ==> sgr_applied(state, params, 0) == sgr_applied(colored, params.skip(5), 0),
{
    if params[1].value == Some(5i32) {
        lemma_applied_suffix(colored, params.take(3), params.skip(3), 0);
        assert(params.take(3) + params.skip(3) =~= params);
    } else if params.len() >= 5 {
        lemma_applied_suffix(colored, params.take(5), params.skip(5), 0);
        assert(params.take(5) + params.skip(5) =~= params);
    }
}

/// 38, 48 and 58 without a color behind them, or with a number that is too large for one, mean
/// nothing: the parameters behind them are read as if they stood alone.
#[verifier::rlimit(50)]
pub proof fn lemma_unfinished_color_means_nothing(state: SgrState, params: Seq<SgrParamModel>)
    requires
        params.len() >= 1,
        params[0].value == Some(38i32) || params[0].value == Some(48i32) || params[0].value == Some(
            58i32,
        ),
        !params[0].colon,
        params.len() < 3 || (params[1].value != Some(5i32) && params[1].value != Some(2i32)) || (
        params[1].value == Some(5i32) && params[2].value is Some && params[2].value->0 > 255),
    ensures
        sgr_applied(state, params, 0) == sgr_applied(state, params.skip(1), 0),
{
    reveal(simple_applied);
    reveal(attribute_applied);
    assert(simple_applied(state, params[0]) == state);
    assert(extended_color(params, 0) is None);
    lemma_applied_suffix(state, params.take(1), params.skip(1), 0);
    assert(params.take(1) + params.skip(1) =~= params);
}

} // verus!
