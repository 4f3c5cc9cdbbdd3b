//! The overview of an error: its message, where it happened, the lines around that
//! place, and the stack.

use crate::element::{AnyElement, ElementNode, FragmentProps};
use crate::strings::{chars_of, decimal_text, repeat_char, split_on, string_of};
use crate::style::{Color, Dimension, FlexDirection, LayoutStyle, Weight};
use crate::text::colored_text;
use crate::view_props::ViewProps;
use crate::whitespace::trim;
use vstd::prelude::*;

verus! {

/// Where an error happened.
#[derive(Debug, PartialEq, Eq)]
pub struct ErrorLocation {
    /// The source file.
    pub file: String,
    /// The line, counted from one.
    pub line: usize,
    /// The column.
    pub column: Option<usize>,
}

/// The props of [`ErrorOverview`].
#[derive(Debug)]
pub struct ErrorOverviewProps {
    /// The message of the error.
    pub message: String,
    /// Where the error happened.
    pub location: Option<ErrorLocation>,
    /// The stack, one frame on each line.
    pub stack: Option<String>,
    /// The source, instead of that in the file.
    pub source: Option<String>,
}

impl Default for ErrorOverviewProps {
    fn default() -> (r: Self)
        ensures
            r.message@.len() == 0,
            r.location is None,
            r.stack is None,
            r.source is None,
    {
        ErrorOverviewProps { message: String::new(), location: None, stack: None, source: None }
    }
}

/// A line of the source.
#[derive(Debug, PartialEq, Eq)]
pub struct ErrorExcerptLine {
    /// The number of the line.
    pub line: usize,
    /// The line.
    pub value: String,
}

/// What an [`ErrorExcerptLine`] holds.
pub struct ExcerptModel {
    pub line: int,
    pub value: Seq<char>,
}

impl View for ErrorExcerptLine {
    type V = ExcerptModel;

    open spec fn view(&self) -> ExcerptModel {
        ExcerptModel { line: self.line as int, value: self.value@ }
    }
}

/// What a list of lines holds.
pub open spec fn excerpt_models(lines: Seq<ErrorExcerptLine>) -> Seq<ExcerptModel> {
    lines.map_values(|line: ErrorExcerptLine| line@)
}

/// A line without the carriage return at its end.
pub open spec fn without_return(line: Seq<char>) -> Seq<char> {
    if line.len() > 0 && line.last() == '\r' {
        line.drop_last()
    } else {
        line
    }
}

/// The lines of a text. A carriage return before a line end belongs to it; a line end at
/// the end of the text starts no line.
pub open spec fn lines_of(text: Seq<char>) -> Seq<Seq<char>> {
    let parts: Seq<Seq<char>> = crate::strings::split(text, '\n');
    let ended: Seq<Seq<char>> = parts.drop_last().map_values(
        |line: Seq<char>| without_return(line),
    );
    if parts.last().len() == 0 {
        ended
    } else {
        ended.push(parts.last())
    }
}

/// The lines of a text.
pub fn text_lines(text: &str) -> (lines: Vec<String>)
    ensures
        crate::strings::texts(lines@) == lines_of(text@),
{
    let parts = split_on(text, '\n');
    let ghost all = crate::strings::texts(parts@);
    let ghost ended = all.drop_last().map_values(|line: Seq<char>| without_return(line));
    proof {
        crate::strings::lemma_split_nonempty(text@, '\n');
        assert(all.len() == parts@.len());
    }
    let mut lines: Vec<String> = Vec::new();
    let mut i: usize = 0;
    assert(crate::strings::texts(lines@) =~= ended.take(0));
    while i < parts.len() - 1
        invariant
            i <= parts@.len() - 1,
            parts@.len() >= 1,
            all == crate::strings::texts(parts@),
            ended == all.drop_last().map_values(|line: Seq<char>| without_return(line)),
            crate::strings::texts(lines@) == ended.take(i as int),
        decreases parts@.len() - i,
    {
        let chars = chars_of(parts[i].as_str());
        let mut end: usize = chars.len();
        if end > 0 && chars[end - 1] == '\r' {
            end = end - 1;
        }
        let line = string_of(&chars, 0, end);
        let ghost before = crate::strings::texts(lines@);
        lines.push(line);
        i = i + 1;
        proof {
            assert(all[i - 1] == parts@[i - 1]@);
            assert(line@ =~= without_return(all[i - 1]));
            assert(ended[i - 1] == line@);
            assert(crate::strings::texts(lines@) =~= before.push(line@));
            assert(ended.take(i as int) =~= ended.take(i - 1).push(ended[i - 1]));
        }
    }
    assert(ended.take(i as int) =~= ended);
    let last = parts[parts.len() - 1].clone();
    assert(all.last() == last@);
    if !last.as_str().is_empty() {
        let ghost before = crate::strings::texts(lines@);
        lines.push(last);
        assert(crate::strings::texts(lines@) =~= before.push(last@));
    }
    lines
}

/// A path without the prefix of a file URL.
pub open spec fn without_scheme(path: Seq<char>) -> Seq<char> {
    let scheme: Seq<char> = seq!['f', 'i', 'l', 'e', ':', '/', '/'];
    if scheme.is_prefix_of(path) {
        path.skip(7)
    } else {
        path
    }
}

/// A path without the prefix of a file URL.
pub fn strip_file_scheme(path: &str) -> (r: String)
    ensures
        r@ == without_scheme(path@),
{
    let chars = chars_of(path);
    let ghost scheme: Seq<char> = seq!['f', 'i', 'l', 'e', ':', '/', '/'];
    if chars.len() >= 7 && chars[0] == 'f' && chars[1] == 'i' && chars[2] == 'l' && chars[3] == 'e'
        && chars[4] == ':' && chars[5] == '/' && chars[6] == '/' {
        assert(scheme =~= path@.take(7));
        let r = string_of(&chars, 7, chars.len());
        assert(r@ =~= path@.skip(7));
        return r;
    }
    proof {
        if scheme.is_prefix_of(path@) {
            assert(scheme =~= path@.subrange(0, 7));
            assert(forall|i: int| 0 <= i < 7 ==> path@[i] == scheme[i]) by {
                assert forall|i: int| 0 <= i < 7 implies path@[i] == scheme[i] by {
                    assert(path@.subrange(0, 7)[i] == path@[i]);
                }
            }
            assert(path@[0] == scheme[0] && path@[1] == scheme[1] && path@[2] == scheme[2]);
            assert(path@[3] == scheme[3] && path@[4] == scheme[4] && path@[5] == scheme[5]);
            assert(path@[6] == scheme[6]);
        }
    }
    path.to_owned()
}

/// A path as it is shown: relative to the working directory where it is below it.
/// `relative` is the path below the working directory, if there is one.
pub fn cleanup_path(path: &str, relative: &Option<String>) -> (r: String)
    ensures
        r@ == match *relative {
            Some(relative) => relative@,
            None => without_scheme(path@),
        },
{
    match relative {
        Some(relative) => relative.clone(),
        None => strip_file_scheme(path),
    }
}

/// A place as it is shown: file, line and column.
pub open spec fn location_text(file: Seq<char>, line: int, column: Option<usize>) -> Seq<char> {
    let place: Seq<char> = file.push(':') + crate::strings::decimal(line);
    match column {
        Some(column) => place.push(':') + crate::strings::decimal(column as int),
        None => place,
    }
}

/// A place as it is shown; `file` is the path as it is shown.
pub fn format_location(file: &str, location: &ErrorLocation) -> (r: String)
    ensures
        r@ == location_text(file@, location.line as int, location.column),
{
    let mut r = file.to_owned();
    r.push(':');
    let line = decimal_text(location.line);
    r.append(line.as_str());
    if let Some(column) = location.column {
        r.push(':');
        let number = decimal_text(column);
        r.append(number.as_str());
    }
    r
}

/// The source that the lines come from: the given one, or that of the file.
pub fn source_for_excerpt(props: &ErrorOverviewProps, file_source: &Option<String>) -> (r: Option<
    String,
>)
    ensures
        crate::strings::opt_text(r) == if props.source is Some {
            crate::strings::opt_text(props.source)
        } else if props.location is Some {
            crate::strings::opt_text(*file_source)
        } else {
            None
        },
{
    if let Some(source) = &props.source {
        return Some(source.clone());
    }
    if props.location.is_none() {
        return None;
    }
    match file_source {
        Some(source) => Some(source.clone()),
        None => None,
    }
}

/// The lines from two before a line to two after it.
pub open spec fn lines_around(source: Seq<char>, line: int) -> Seq<ExcerptModel> {
    let lines: Seq<Seq<char>> = lines_of(source);
    let first: int = crate::math::max_int(line - 2, 1);
    let last: int = crate::math::min_int(line + 2, lines.len() as int);
    Seq::new(
        crate::math::max_int(last - first + 1, 0) as nat,
        |i: int| ExcerptModel { line: first + i, value: lines[first + i - 1] },
    )
}

/// The lines around the place of an error; none, where the place or the source is unknown.
pub open spec fn excerpt_of(
    location: Option<ErrorLocation>,
    source: Option<Seq<char>>,
) -> Seq<ExcerptModel> {
    if location is Some && location->0.line > 0 && source is Some {
        lines_around(source->0, location->0.line as int)
    } else {
        Seq::empty()
    }
}

/// The lines around the place of an error.
pub fn build_excerpt(location: &Option<ErrorLocation>, source: &Option<String>) -> (excerpt: Vec<
    ErrorExcerptLine,
>)
    ensures
        excerpt_models(excerpt@) == excerpt_of(*location, crate::strings::opt_text(*source)),
{
    let mut excerpt: Vec<ErrorExcerptLine> = Vec::new();
    let ghost goal = excerpt_of(*location, crate::strings::opt_text(*source));
    assert(excerpt_models(excerpt@) =~= Seq::empty());
    let line: usize = match location {
        Some(location) => location.line,
        None => {
            return excerpt;
        },
    };
    if line == 0 {
        return excerpt;
    }
    let text: &String = match source {
        Some(text) => text,
        None => {
            return excerpt;
        },
    };
    let lines = text_lines(text.as_str());
    let ghost all = crate::strings::texts(lines@);
    let first: usize = if line > 3 {
        line - 2
    } else {
        1
    };
    let mut number: usize = first;
    assert(all.len() == lines@.len());
    assert(excerpt_models(excerpt@) =~= goal.take(0));
    while number <= lines.len() && (number <= line || number - line <= 2)
        invariant
            1 <= first <= number,
            line > 0,
            first == crate::math::max_int(line - 2, 1),
            number <= crate::math::max_int(
                crate::math::min_int(line + 2, lines@.len() as int) + 1,
                first as int,
            ),
            all == crate::strings::texts(lines@),
            all == lines_of(text@),
            all.len() == lines@.len(),
            goal == lines_around(text@, line as int),
            goal == excerpt_of(*location, crate::strings::opt_text(*source)),
            excerpt_models(excerpt@) == goal.take(number - first),
        decreases lines@.len() + 1 - number,
    {
        let shown = ErrorExcerptLine { line: number, value: lines[number - 1].clone() };
        let ghost before = excerpt_models(excerpt@);
        let ghost place = number - first;
        excerpt.push(shown);
        proof {
            assert(all[number - 1] == lines@[number - 1]@);
            assert(shown@ == goal[place]);
            assert(excerpt_models(excerpt@) =~= before.push(shown@));
            assert(goal.take(place + 1) =~= goal.take(place).push(goal[place]));
        }
        if number == usize::MAX {
            assert(goal.take(place + 1) =~= goal);
            return excerpt;
        }
        number = number + 1;
    }
    assert(goal.take(number - first) =~= goal);
    excerpt
}

/// The digits of the longest line number.
pub open spec fn number_width(excerpt: Seq<ExcerptModel>) -> int
    decreases excerpt.len(),
{
    if excerpt.len() == 0 {
        0
    } else {
        crate::math::max_int(
            number_width(excerpt.drop_last()),
            crate::strings::decimal(excerpt.last().line).len() as int,
        )
    }
}

/// The digits of the longest line number.
fn longest_number(excerpt: &Vec<ErrorExcerptLine>) -> (width: usize)
    ensures
        width == number_width(excerpt_models(excerpt@)),
        width < usize::MAX,
{
    let ghost all = excerpt_models(excerpt@);
    let mut width: usize = 0;
    let mut i: usize = 0;
    assert(all.take(0) =~= Seq::empty());
    while i < excerpt.len()
        invariant
            i <= excerpt@.len(),
            all == excerpt_models(excerpt@),
            width == number_width(all.take(i as int)),
            width <= 20,
        decreases excerpt@.len() - i,
    {
        let digits = decimal_text(excerpt[i].line);
        proof {
            assert(all.take(i + 1).drop_last() =~= all.take(i as int));
            assert(all.take(i + 1).last() == excerpt@[i as int]@);
            reveal_with_fuel(crate::strings::power_of_ten, 21);
            crate::strings::lemma_decimal_len(excerpt@[i as int].line as int, 20);
        }
        let length: usize = digits.as_str().unicode_len();
        if length > width {
            width = length;
        }
        i = i + 1;
    }
    assert(all.take(i as int) =~= all);
    width
}

/// An element that is a text with nothing but a content, colors and a weight.
pub open spec fn is_text(
    element: AnyElement,
    place: int,
    content: Seq<char>,
    color: Option<Color>,
    background: Option<Color>,
    weight: Weight,
) -> bool {
    &&& element.key.value == place
    &&& element.node is Text
    &&& crate::text::is_colored_text(element.node->Text_0, content, color, background, weight)
}

/// An element that is a text with nothing but a content, colors and a weight.
fn make_text(
    place: u64,
    content: String,
    color: Option<Color>,
    background: Option<Color>,
    weight: Weight,
) -> (element: AnyElement)
    ensures
        is_text(element, place as int, content@, color, background, weight),
{
    AnyElement::at(place, ElementNode::Text(colored_text(content, color, background, weight)))
}

/// A line number, with blanks before it where others are longer, and a colon.
pub open spec fn padded_number(line: int, width: int) -> Seq<char> {
    let digits: Seq<char> = crate::strings::decimal(line);
    (crate::strings::repeated(' ', crate::math::max_int(width - digits.len(), 0)) + digits).push(
        ':',
    )
}

/// A row with two elements side by side.
pub open spec fn is_row(element: AnyElement, place: int) -> bool {
    &&& element.is_view_at(
        place,
        crate::style::plain_layout(),
        element.node->View_0.children@,
    )
    &&& element.node->View_0.children@.len() == 2
}

/// A row with a line of the source. The line of the error stands out.
pub open spec fn is_excerpt_row(
    element: AnyElement,
    place: int,
    line: ExcerptModel,
    width: int,
    current: int,
) -> bool {
    let children = element.node->View_0.children@;
    let number = children[0].node->View_0.children@;
    let is_current: bool = line.line == current;
    let color = if is_current {
        Some(Color::White)
    } else {
        None
    };
    let background = if is_current {
        Some(Color::Red)
    } else {
        None
    };
    &&& is_row(element, place)
    &&& children[0].is_view_at(
        0,
        (LayoutStyle {
            width: Dimension::Length((width + 1) as usize),
            ..crate::style::plain_layout()
        }),
        number,
    )
    &&& number.len() == 1
    &&& is_text(
        number[0],
        0,
        padded_number(line.line, width),
        color,
        background,
        if is_current {
            Weight::Bold
        } else {
            Weight::Light
        },
    )
    &&& is_text(children[1], 1, seq![' '] + line.value, color, background, Weight::Normal)
}

/// Two elements side by side.
fn make_row(place: u64, layout: LayoutStyle, first: AnyElement, second: AnyElement) -> (element:
    AnyElement)
    ensures
        element.is_view_at(place as int, layout, seq![first, second]),
{
    let mut children: Vec<AnyElement> = Vec::new();
    children.push(first);
    children.push(second);
    assert(children@ =~= seq![first, second]);
    AnyElement::at(place, ElementNode::View(ViewProps::bare(layout, children)))
}

/// A text with a blank before it.
fn after_blank(text: &str) -> (r: String)
    ensures
        r@ == seq![' '] + text@,
{
    let mut r = repeat_char(' ', 1);
    r.append(text);
    assert(r@ =~= seq![' '] + text@);
    r
}

/// A row with a line of the source.
fn excerpt_row(place: u64, line: &ErrorExcerptLine, width: usize, current: usize) -> (element:
    AnyElement)
    requires
        width < usize::MAX,
    ensures
        is_excerpt_row(element, place as int, line@, width as int, current as int),
{
    let is_current = line.line == current;
    let color = if is_current {
        Some(Color::White)
    } else {
        None
    };
    let background = if is_current {
        Some(Color::Red)
    } else {
        None
    };
    let weight = if is_current {
        Weight::Bold
    } else {
        Weight::Light
    };
    let digits = decimal_text(line.line);
    let length: usize = digits.as_str().unicode_len();
    let blanks: usize = if length < width {
        width - length
    } else {
        0
    };
    let mut number = repeat_char(' ', blanks);
    number.append(digits.as_str());
    number.push(':');
    assert(number@ =~= padded_number(line.line as int, width as int));
    let mut cells: Vec<AnyElement> = Vec::new();
    cells.push(make_text(0, number, color, background, weight));
    let mut layout = LayoutStyle::default();
    layout.width = Dimension::Length(width + 1);
    let gutter = AnyElement::at(0, ElementNode::View(ViewProps::bare(layout, cells)));
    let value = make_text(
        1,
        after_blank(line.value.as_str()),
        color,
        background,
        Weight::Normal,
    );
    make_row(place, LayoutStyle::default(), gutter, value)
}

/// A row with a frame of the stack.
pub open spec fn is_stack_row(element: AnyElement, place: int, frame: Seq<char>) -> bool {
    let children = element.node->View_0.children@;
    &&& is_row(element, place)
    &&& is_text(children[0], 0, "- "@, None, None, Weight::Light)
    &&& is_text(children[1], 1, frame, None, None, Weight::Bold)
}

/// The lines that are not blank.
pub open spec fn not_blank(lines: Seq<Seq<char>>) -> Seq<Seq<char>>
    decreases lines.len(),
{
    if lines.len() == 0 {
        Seq::empty()
    } else if crate::whitespace::trimmed(lines.last()).len() == 0 {
        not_blank(lines.drop_last())
    } else {
        not_blank(lines.drop_last()).push(lines.last())
    }
}

/// The rows of a stack: one for each line that is not blank.
pub fn stack_rows(stack: &str) -> (rows: Vec<AnyElement>)
    ensures
        ({
            let frames = not_blank(lines_of(stack@));
            &&& rows@.len() == frames.len()
            &&& forall|i: int|
                0 <= i < frames.len() ==> is_stack_row(#[trigger] rows@[i], i, frames[i])
        }),
{
    let lines = text_lines(stack);
    let ghost all = crate::strings::texts(lines@);
    let mut rows: Vec<AnyElement> = Vec::new();
    let mut i: usize = 0;
    assert(all.take(0) =~= Seq::empty());
    while i < lines.len()
        invariant
            i <= lines@.len(),
            all == crate::strings::texts(lines@),
            rows@.len() <= i,
            rows@.len() == not_blank(all.take(i as int)).len(),
            forall|k: int|
                0 <= k < rows@.len() ==> is_stack_row(
                    #[trigger] rows@[k],
                    k,
                    not_blank(all.take(i as int))[k],
                ),
        decreases lines@.len() - i,
    {
        proof {
            assert(all.take(i + 1).drop_last() =~= all.take(i as int));
            assert(all.take(i + 1).last() == lines@[i as int]@);
        }
        let trimmed = trim(lines[i].as_str());
        if !trimmed.as_str().is_empty() {
            let mark = make_text(0, "- ".to_owned(), None, None, Weight::Light);
            let frame = make_text(1, lines[i].clone(), None, None, Weight::Bold);
            let place: u64 = rows.len() as u64;
            rows.push(make_row(place, LayoutStyle::default(), mark, frame));
        }
        i = i + 1;
    }
    assert(all.take(i as int) =~= all);
    rows
}

/// A column of rows, one row below what is above it; an empty fragment where there is no
/// row.
pub open spec fn is_section(element: AnyElement, place: int, count: int) -> bool {
    if count == 0 {
        &&& element.key.value == place
        &&& element.node is Fragment
        &&& element.node->Fragment_0.children@.len() == 0
    } else {
        &&& element.is_view_at(place, section_layout(), element.node->View_0.children@)
        &&& element.node->View_0.children@.len() == count
    }
}

/// The box of a column of rows.
pub open spec fn section_layout() -> LayoutStyle {
    LayoutStyle {
        margin_top: 1,
        flex_direction: FlexDirection::Column,
        ..crate::style::plain_layout()
    }
}

/// A column of rows.
fn make_section(place: u64, rows: Vec<AnyElement>) -> (element: AnyElement)
    ensures
        is_section(element, place as int, rows@.len() as int),
        rows@.len() > 0 ==> element.node->View_0.children@ == rows@,
{
    if rows.len() == 0 {
        return AnyElement::at(
            place,
            ElementNode::Fragment(FragmentProps { children: Vec::new() }),
        );
    }
    let mut layout = LayoutStyle::default();
    layout.margin_top = 1;
    layout.flex_direction = FlexDirection::Column;
    AnyElement::at(place, ElementNode::View(ViewProps::bare(layout, rows)))
}

/// The box of the overview.
pub open spec fn overview_layout() -> LayoutStyle {
    LayoutStyle {
        flex_direction: FlexDirection::Column,
        padding_left: 1,
        padding_right: 1,
        padding_top: 1,
        padding_bottom: 1,
        ..crate::style::plain_layout()
    }
}

/// The first row of the overview: a badge and the message.
pub open spec fn is_heading(element: AnyElement, message: Seq<char>) -> bool {
    let children = element.node->View_0.children@;
    &&& is_row(element, 0)
    &&& is_text(children[0], 0, " ERROR "@, Some(Color::White), Some(Color::Red), Weight::Normal)
    &&& is_text(children[1], 1, seq![' '] + message, None, None, Weight::Normal)
}

/// The place of the error, one row below the heading.
pub open spec fn is_place(element: AnyElement, text: Seq<char>) -> bool {
    let children = element.node->View_0.children@;
    &&& element.is_view_at(
        1,
        (LayoutStyle { margin_top: 1, ..crate::style::plain_layout() }),
        children,
    )
    &&& children.len() == 1
    &&& is_text(children[0], 0, text, None, None, Weight::Light)
}

/// The rows of the source.
pub open spec fn is_excerpt_section(
    element: AnyElement,
    place: int,
    excerpt: Seq<ExcerptModel>,
    current: int,
) -> bool {
    &&& is_section(element, place, excerpt.len() as int)
    &&& forall|i: int|
        0 <= i < excerpt.len() ==> is_excerpt_row(
            #[trigger] element.node->View_0.children@[i],
            i,
            excerpt[i],
            number_width(excerpt),
            current,
        )
}

/// The rows of the stack.
pub open spec fn is_stack_section(
    element: AnyElement,
    place: int,
    frames: Seq<Seq<char>>,
) -> bool {
    &&& is_section(element, place, frames.len() as int)
    &&& forall|i: int|
        0 <= i < frames.len() ==> is_stack_row(
            #[trigger] element.node->View_0.children@[i],
            i,
            frames[i],
        )
}

/// The overview of an error. `file` is the path of its place as it is shown.
pub open spec fn is_overview(
    element: AnyElement,
    props: ErrorOverviewProps,
    file: Seq<char>,
    source: Option<Seq<char>>,
) -> bool {
    let children = element.node->View_0.children@;
    let located: int = if props.location is Some {
        1
    } else {
        0
    };
    let current: int = if props.location is Some {
        props.location->0.line as int
    } else {
        0
    };
    &&& element.is_view_at(0, overview_layout(), children)
    &&& children.len() == 3 + located
    &&& is_heading(children[0], props.message@)
    &&& props.location matches Some(location) ==> is_place(
        children[1],
        location_text(file, location.line as int, location.column),
    )
    &&& is_excerpt_section(
        children[1 + located],
        1 + located,
        excerpt_of(props.location, source),
        current,
    )
    &&& is_stack_section(
        children[2 + located],
        2 + located,
        match props.stack {
            Some(stack) => not_blank(lines_of(stack@)),
            None => Seq::empty(),
        },
    )
}

/// The rows of the source.
fn excerpt_rows(excerpt: &Vec<ErrorExcerptLine>, current: usize) -> (rows: Vec<AnyElement>)
    ensures
        rows@.len() == excerpt@.len(),
        forall|i: int|
            0 <= i < rows@.len() ==> is_excerpt_row(
                #[trigger] rows@[i],
                i,
                excerpt_models(excerpt@)[i],
                number_width(excerpt_models(excerpt@)),
                current as int,
            ),
{
    let width: usize = longest_number(excerpt);
    let mut rows: Vec<AnyElement> = Vec::new();
    let mut i: usize = 0;
    while i < excerpt.len()
        invariant
            i <= excerpt@.len(),
            rows@.len() == i,
            width < usize::MAX,
            width == number_width(excerpt_models(excerpt@)),
            forall|k: int|
                0 <= k < i ==> is_excerpt_row(
                    #[trigger] rows@[k],
                    k,
                    excerpt_models(excerpt@)[k],
                    width as int,
                    current as int,
                ),
        decreases excerpt@.len() - i,
    {
        rows.push(excerpt_row(i as u64, &excerpt[i], width, current));
        i = i + 1;
    }
    rows
}

/// Renders the overview of an error. `relative` is the path of its place below the working
/// directory, if it is below it; `file_source` is the source in the file of that place, if
/// it can be read.
#[allow(non_snake_case)]
pub fn ErrorOverview(
    props: &ErrorOverviewProps,
    relative: &Option<String>,
    file_source: &Option<String>,
) -> (element: AnyElement)
    ensures
        is_overview(
            element,
            *props,
            match *relative {
                Some(relative) => relative@,
                None => without_scheme(props.location->0.file@),
            },
            if props.source is Some {
                crate::strings::opt_text(props.source)
            } else if props.location is Some {
                crate::strings::opt_text(*file_source)
            } else {
                None
            },
        ),
{
    let mut children: Vec<AnyElement> = Vec::new();
    let badge = make_text(
        0,
        " ERROR ".to_owned(),
        Some(Color::White),
        Some(Color::Red),
        Weight::Normal,
    );
    let message = make_text(1, after_blank(props.message.as_str()), None, None, Weight::Normal);
    children.push(make_row(0, LayoutStyle::default(), badge, message));
    let mut current: usize = 0;
    if let Some(location) = &props.location {
        current = location.line;
        let file = cleanup_path(location.file.as_str(), relative);
        let text = format_location(file.as_str(), location);
        let mut cells: Vec<AnyElement> = Vec::new();
        cells.push(make_text(0, text, None, None, Weight::Light));
        let mut layout = LayoutStyle::default();
        layout.margin_top = 1;
        children.push(AnyElement::at(1, ElementNode::View(ViewProps::bare(layout, cells))));
    }
    let source = source_for_excerpt(props, file_source);
    let excerpt = build_excerpt(&props.location, &source);
    let place: u64 = children.len() as u64;
    children.push(make_section(place, excerpt_rows(&excerpt, current)));
    let rows = match &props.stack {
        Some(stack) => stack_rows(stack.as_str()),
        None => Vec::new(),
    };
    children.push(make_section(place + 1, rows));
    let mut layout = LayoutStyle::default();
    layout.flex_direction = FlexDirection::Column;
    layout.padding_left = 1;
    layout.padding_right = 1;
    layout.padding_top = 1;
    layout.padding_bottom = 1;
    AnyElement::at(0, ElementNode::View(ViewProps::bare(layout, children)))
}

/// The excerpt shows the line of the error with up to two lines before it and two behind it, each
/// with its number, in order.
pub proof fn lemma_excerpt_is_around_the_error(source: Seq<char>, line: int, i: int)
    requires
        1 <= line <= lines_of(source).len(),
    ensures
        ({
            let excerpt = lines_around(source, line);
            let all = lines_of(source);
            let before: int = if line > 2 {
                2
            } else {
                line - 1
            };
            let after: int = if line + 2 <= all.len() {
                2
            } else {
                all.len() - line
            };
            &&& excerpt.len() == before + 1 + after
            &&& excerpt[before].line == line && excerpt[before].value == all[line - 1]
            &&& 0 <= i < excerpt.len() ==> excerpt[i].line == line - before + i
                && excerpt[i].value == all[excerpt[i].line - 1]
        }),
{
}

/// An excerpt is shown only of a known place, with a line that is numbered from one on, and of a
/// known source.
pub proof fn lemma_excerpt_of_known_place(location: Option<ErrorLocation>, source: Option<Seq<char>>)
    ensures
        location is None || source is None ==> excerpt_of(location, source).len() == 0,
        location matches Some(place) ==> (place.line == 0 ==> excerpt_of(location, source).len()
            == 0),
        location matches Some(place) ==> (source matches Some(text) ==> (place.line >= 1
            ==> excerpt_of(location, source) == lines_around(text, place.line as int))),
{
}

/// The line of the error is written in white on red, with a bold number; the others as they are,
/// with light numbers.
pub proof fn lemma_error_line_stands_out(
    element: AnyElement,
    place: int,
    line: ExcerptModel,
    width: int,
    current: int,
)
    requires
        is_excerpt_row(element, place, line, width, current),
    ensures
        ({
            let children = element.node->View_0.children@;
            let number = children[0].node->View_0.children@[0].node->Text_0;
            let value = children[1].node->Text_0;
            &&& line.line == current ==> {
                &&& number.color == Some(Color::White) && number.background_color == Some(
                    Color::Red,
                )
                &&& value.color == Some(Color::White) && value.background_color == Some(Color::Red)
                &&& number.weight == Weight::Bold
            }
            &&& line.line != current ==> {
                &&& number.color is None && number.background_color is None
                &&& value.color is None && value.background_color is None
                &&& number.weight == Weight::Light
            }
            &&& value.content@.len() == line.value.len() + 1 && value.content@[0] == ' '
            &&& value.content@.skip(1) == line.value
        }),
{
    let value = element.node->View_0.children@[1].node->Text_0;
    assert(value.content@.skip(1) =~= line.value);
}

/// The number of a line is written in decimal with a colon behind it, and with blanks before it
/// where the longest number is longer, so that all of them end in the same column.
pub proof fn lemma_numbers_are_aligned(line: int, width: int)
    requires
        0 <= line,
        crate::strings::decimal(line).len() <= width,
    ensures
        ({
            let shown = padded_number(line, width);
            let digits = crate::strings::decimal(line);
            let blanks: int = width - digits.len();
            &&& shown.len() == width + 1
            &&& shown[width] == ':'
            &&& shown.subrange(blanks, width) == digits
            &&& forall|i: int| 0 <= i < blanks ==> #[trigger] shown[i] == ' '
        }),
{
    let shown = padded_number(line, width);
    let digits = crate::strings::decimal(line);
    assert(shown.subrange(width - digits.len(), width) =~= digits);
}

/// No number of an excerpt has more digits than the longest, and one has as many.
pub proof fn lemma_longest_number(excerpt: Seq<ExcerptModel>)
    ensures
        forall|i: int|
            0 <= i < excerpt.len() ==> crate::strings::decimal((#[trigger] excerpt[i]).line).len()
                <= number_width(excerpt),
        excerpt.len() > 0 ==> exists|i: int|
            0 <= i < excerpt.len() && crate::strings::decimal((#[trigger] excerpt[i]).line).len()
                == number_width(excerpt),
    decreases excerpt.len(),
{
    if excerpt.len() > 0 {
        let before = excerpt.drop_last();
        lemma_longest_number(before);
        assert forall|i: int| 0 <= i < excerpt.len() implies crate::strings::decimal(
            (#[trigger] excerpt[i]).line,
        ).len() <= number_width(excerpt) by {
            if i < before.len() {
                assert(before[i] == excerpt[i]);
            }
        }
        assert(excerpt[excerpt.len() - 1] == excerpt.last());
        if before.len() > 0 {
            let i = choose|i: int|
                0 <= i < before.len() && crate::strings::decimal((#[trigger] before[i]).line).len()
                    == number_width(before);
            assert(excerpt[i] == before[i]);
        }
    }
}

/// The place of an error is shown with colons between the file, the line and the column, where
/// there is one.
pub proof fn lemma_place_is_shown(file: Seq<char>, line: int, column: usize)
    ensures
        location_text(file, line, None) == file + seq![':'] + crate::strings::decimal(line),
        location_text(file, line, Some(column)) == file + seq![':'] + crate::strings::decimal(line)
            + seq![':'] + crate::strings::decimal(column as int),
{
    assert(location_text(file, line, None) =~= file + seq![':'] + crate::strings::decimal(line));
    assert(location_text(file, line, Some(column)) =~= file + seq![':'] + crate::strings::decimal(
        line,
    ) + seq![':'] + crate::strings::decimal(column as int));
}

/// A file URL loses its scheme, and any other path stays as it is.
pub proof fn lemma_scheme_is_taken_off(path: Seq<char>)
    ensures
        without_scheme(seq!['f', 'i', 'l', 'e', ':', '/', '/'] + path) == path,
        path.len() == 0 || path[0] != 'f' ==> without_scheme(path) == path,
{
    let scheme: Seq<char> = seq!['f', 'i', 'l', 'e', ':', '/', '/'];
    assert((scheme + path).skip(7) =~= path);
    assert(scheme =~= (scheme + path).take(7));
}

/// The frames of a stack that are shown are its lines that hold more than white space, in order.
pub proof fn lemma_frames_are_shown(lines: Seq<Seq<char>>) -> (places: Seq<int>)
    ensures
        places.len() == not_blank(lines).len(),
        forall|i: int| 0 <= i < places.len() ==> 0 <= #[trigger] places[i] < lines.len(),
        forall|i: int, j: int| 0 <= i < j < places.len() ==> places[i] < places[j],
        forall|i: int| 0 <= i < places.len() ==> not_blank(lines)[i] == lines[#[trigger] places[i]],
        forall|k: int|
            0 <= k < lines.len() ==> places.contains(k) == exists|j: int|
                0 <= j < lines[k].len() && !crate::whitespace::is_space(#[trigger] lines[k][j]),
    decreases lines.len(),
{
    if lines.len() == 0 {
        Seq::empty()
    } else {
        let before = lines.drop_last();
        let last: int = lines.len() - 1;
        let earlier = lemma_frames_are_shown(before);
        let line = lines.last();
        let start = crate::whitespace::lemma_trimmed_is_part(line);
        let shown = crate::whitespace::trimmed(line).len() > 0;
        let places = if shown {
            earlier.push(last)
        } else {
            earlier
        };
        if shown {
            assert(crate::whitespace::trimmed(line)[0] == line[start]);
            assert(!crate::whitespace::is_space(lines[last][start]));
        }
        assert forall|i: int| 0 <= i < places.len() implies not_blank(lines)[i]
            == lines[#[trigger] places[i]] by {
            if i < earlier.len() {
                assert(places[i] == earlier[i]);
                assert(before[earlier[i]] == lines[places[i]]);
            }
        }
        assert forall|k: int| 0 <= k < lines.len() implies places.contains(k) == exists|j: int|
            0 <= j < lines[k].len() && !crate::whitespace::is_space(#[trigger] lines[k][j]) by {
            if k < last {
                assert(before[k] == lines[k]);
                if earlier.contains(k) {
                    let i = choose|i: int| 0 <= i < earlier.len() && earlier[i] == k;
                    assert(places[i] == k);
                }
                if places.contains(k) {
                    let i = choose|i: int| 0 <= i < places.len() && places[i] == k;
                    assert(earlier[i] == k);
                }
            } else if shown {
                assert(places[places.len() - 1] == k);
            } else {
                if places.contains(k) {
                    let i = choose|i: int| 0 <= i < places.len() && places[i] == k;
                    assert(earlier[i] == k);
                }
                assert forall|j: int| 0 <= j < line.len() implies crate::whitespace::is_space(
                    #[trigger] line[j],
                ) by {}
            }
        }
        places
    }
}

/// A line end behind the last line starts no other one, and a carriage return before a line end
/// belongs to it.
pub proof fn lemma_lines_of_text(lines: Seq<Seq<char>>, last: Seq<char>)
    requires
        lines.len() > 0,
        forall|i: int, k: int|
            0 <= i < lines.len() && 0 <= k < lines[i].len() ==> #[trigger] lines[i][k] != '\n'
                && lines[i][k] != '\r',
        forall|k: int| 0 <= k < last.len() ==> #[trigger] last[k] != '\n',
        last.len() > 0,
    ensures
        lines_of(crate::strings::join(lines.push(Seq::empty()), '\n')) == lines,
        lines_of(crate::strings::join(lines.push(last), '\n')) == lines.push(last),
        lines_of(
            crate::strings::join(
                lines.map_values(|line: Seq<char>| line.push('\r')).push(Seq::empty()),
                '\n',
            ),
        ) == lines,
{
    let ended = lines.push(Seq::empty());
    let open = lines.push(last);
    let returned = lines.map_values(|line: Seq<char>| line.push('\r')).push(Seq::empty());
    assert forall|i: int, k: int| 0 <= i < ended.len() && 0 <= k < ended[i].len() implies
        #[trigger] ended[i][k] != '\n' by {
        assert(ended[i][k] == lines[i][k]);
    }
    assert forall|i: int, k: int| 0 <= i < open.len() && 0 <= k < open[i].len() implies
        #[trigger] open[i][k] != '\n' by {
        if i < lines.len() {
            assert(open[i][k] == lines[i][k]);
        } else {
            assert(open[i][k] == last[k]);
        }
    }
    assert forall|i: int, k: int| 0 <= i < returned.len() && 0 <= k < returned[i].len() implies
        #[trigger] returned[i][k] != '\n' by {
        if k < lines[i].len() {
            assert(returned[i][k] == lines[i][k]);
        }
    }
    crate::strings::lemma_split_undoes_join(ended, '\n');
    crate::strings::lemma_split_undoes_join(open, '\n');
    crate::strings::lemma_split_undoes_join(returned, '\n');
    assert forall|i: int| 0 <= i < lines.len() implies without_return(#[trigger] lines[i])
        == lines[i] by {
        if lines[i].len() > 0 {
            assert(lines[i][lines[i].len() - 1] != '\r');
        }
    }
    assert(lines_of(crate::strings::join(ended, '\n')) =~= lines);
    assert(lines_of(crate::strings::join(open, '\n')) =~= open);
    assert forall|i: int| 0 <= i < lines.len() implies without_return(#[trigger] returned[i])
        =~= lines[i] by {
        assert(returned[i] == lines[i].push('\r'));
        assert(lines[i].push('\r').drop_last() =~= lines[i]);
    }
    assert(lines_of(crate::strings::join(returned, '\n')) =~= lines);
}

} // verus!
