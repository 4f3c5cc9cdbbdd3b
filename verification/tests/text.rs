use iocraft::ansi::{Ansi, AnsiProps};
use iocraft::canvas::{cluster_display_width, string_display_width, DrawOp};
use iocraft::element::ElementNode;
use iocraft::link::{Link, LinkProps};
use iocraft::mixed_segments::{
    reorder_bidi_segments, segment_index_at_column, slice_segments_by_columns,
    truncate_segments, RenderedMixedTextSegment,
};
use iocraft::mixed_text::{MixedText, MixedTextContent, MixedTextProps};
use iocraft::raw_ansi_line::{RawAnsi, RawAnsiProps};
use iocraft::segmented_string::wrap_segments;
use iocraft::style::{CanvasTextStyle, Color, Weight};
use iocraft::text::{alignment_padding, Text, TextAlign, TextDecoration, TextProps};
use iocraft::text_wrap::{
    measure_for_layout, strip_ansi, truncate_line, wrap_lines, wrap_text, AvailableSpace,
    TextWrap, TruncatePosition,
};
use unicode_segmentation::UnicodeSegmentation;

/// A cell of a small screen that drawing operations are applied to.
#[derive(Clone, Debug, Default)]
struct Cell {
    text: String,
    covered: bool,
    style: Option<CanvasTextStyle>,
    background: Option<Color>,
    link: Option<String>,
}

struct Screen {
    rows: Vec<Vec<Cell>>,
    soft_wraps: Vec<(isize, usize)>,
}

impl Screen {
    fn new(width: usize, height: usize) -> Screen {
        Screen {
            rows: vec![vec![Cell::default(); width]; height],
            soft_wraps: Vec::new(),
        }
    }

    fn cell_mut(&mut self, x: isize, y: isize) -> Option<&mut Cell> {
        if x < 0 || y < 0 {
            return None;
        }
        self.rows.get_mut(y as usize)?.get_mut(x as usize)
    }

    fn put(&mut self, x: isize, y: isize, text: &str, style: &CanvasTextStyle, link: &Option<String>) {
        let mut column = x;
        for cluster in text.graphemes(true) {
            let width = cluster_display_width(cluster, column.max(0) as usize) as isize;
            for offset in 0..width {
                if let Some(cell) = self.cell_mut(column + offset, y) {
                    cell.covered = offset > 0;
                    cell.text = if offset > 0 || cluster == "\t" {
                        String::new()
                    } else {
                        cluster.to_string()
                    };
                    cell.covered = cell.covered && cluster != "\t";
                    cell.style = Some(*style);
                    cell.link = link.clone();
                }
            }
            column += width;
        }
    }

    fn apply(&mut self, x: isize, y: isize, ops: &[DrawOp]) {
        for op in ops {
            match op {
                DrawOp::SetText { x: dx, y: dy, text, style, link } => {
                    self.put(x + dx, y + dy, text, style, link)
                }
                DrawOp::SetBackground { x: dx, y: dy, width, height, color } => {
                    for row in 0..*height as isize {
                        for column in 0..*width as isize {
                            if let Some(cell) = self.cell_mut(x + dx + column, y + dy + row) {
                                cell.background = Some(*color);
                            }
                        }
                    }
                }
                DrawOp::MarkSoftWrap { y: dy, content_end } => {
                    self.soft_wraps.push((y + dy, *content_end))
                }
                DrawOp::ClearText { .. } | DrawOp::MarkNoSelect { .. } => {
                    panic!("text does not clear")
                }
            }
        }
    }

    fn row(&self, y: usize) -> String {
        self.rows[y]
            .iter()
            .filter(|cell| !cell.covered)
            .map(|cell| if cell.text.is_empty() { " " } else { cell.text.as_str() })
            .collect()
    }

    fn shown(&self) -> String {
        (0..self.rows.len())
            .map(|y| format!("{}\n", self.row(y).trim_end()))
            .collect()
    }

    fn style(&self, x: usize, y: usize) -> CanvasTextStyle {
        self.rows[y][x].style.unwrap()
    }

    /// What copying both rows gives, where the second continues the first.
    fn copied(&self) -> String {
        let end = self.soft_wraps[0].1;
        let first: String = self.row(0).chars().take(end).collect();
        format!("{}{}", first, self.row(1).trim_end())
    }
}

fn text(content: &str) -> TextProps {
    TextProps {
        content: content.to_string(),
        ..TextProps::default()
    }
}

/// Lays a text out in so many columns, or in as many as it asks for, and draws it.
fn render(props: &TextProps, columns: Option<usize>) -> Screen {
    let component = Text::new(props);
    let (asked, _) = component.measure(None, AvailableSpace::MaxContent);
    let width = columns.unwrap_or(asked).min(asked);
    let (_, height) = component.measure(Some(width), AvailableSpace::MaxContent);
    let mut screen = Screen::new(width, height);
    screen.apply(0, 0, &component.draw(width, width, false, false));
    screen
}

fn shown(props: &TextProps, columns: Option<usize>) -> String {
    render(props, columns).shown()
}

fn mixed(contents: Vec<MixedTextContent>) -> MixedTextProps {
    MixedTextProps {
        contents,
        ..MixedTextProps::default()
    }
}

fn render_mixed(props: &MixedTextProps, columns: Option<usize>) -> Screen {
    let component = MixedText::new(props);
    let (asked, _) = component.measure(None, AvailableSpace::MaxContent);
    let width = columns.unwrap_or(asked).min(asked);
    let (_, height) = component.measure(Some(width), AvailableSpace::MaxContent);
    let mut screen = Screen::new(width, height);
    screen.apply(0, 0, &component.draw(width, width, false, false));
    screen
}

fn shown_mixed(props: &MixedTextProps, columns: Option<usize>) -> String {
    render_mixed(props, columns).shown()
}

#[test]
fn test_wrap_text_helper_matches_text_modes() {
    assert_eq!(wrap_text("abcdef", 5, TextWrap::TruncateEnd), "abcd…");
    assert_eq!(wrap_text("abcdef", 5, TextWrap::TruncateStart), "…cdef");
    assert_eq!(wrap_text("abcdef", 5, TextWrap::TruncateMiddle), "ab…ef");
    assert_eq!(wrap_text("  abc def", 4, TextWrap::WrapTrim), "abc\ndef");
    assert_eq!(wrap_text("abcdef", 3, TextWrap::NoWrap), "abcdef");
    assert_eq!(wrap_text("abcdef", 3, TextWrap::End), "abcdef");
    assert_eq!(wrap_text("abcdef", 3, TextWrap::Middle), "abcdef");
}

#[test]
fn test_text() {
    assert_eq!(shown(&TextProps::default(), None), "");
    assert_eq!(shown(&text("foo"), None), "foo\n");
    assert_eq!(shown(&text("foo\nbar"), None), "foo\nbar\n");
    assert_eq!(shown(&text("foo\n"), None), "foo\n\n");

    // A column of texts, one of them empty.
    let mut column = Screen::new(1, 2);
    let mut top = 0;
    for content in ["A", "", "B"] {
        let component = Text::new(&text(content));
        let (_, height) = component.measure(Some(1), AvailableSpace::MaxContent);
        column.apply(0, top, &component.draw(1, 1, height == 0, false));
        top += height as isize;
    }
    assert_eq!(top, 2);
    assert_eq!(column.shown(), "A\nB\n");

    let no_wrap = TextProps {
        wrap: TextWrap::NoWrap,
        ..text("foo\n")
    };
    assert_eq!(shown(&no_wrap, None), "foo\n\n");
    assert_eq!(shown(&text("😀"), None), "😀\n");
    assert_eq!(
        shown(&text("this is a wrapping test"), Some(14)),
        "this is a\nwrapping test\n"
    );
    assert_eq!(shown(&text("☀️x"), Some(2)), "☀️\nx\n");

    // Ten columns are laid out, of which five are on the screen.
    let mut screen = Screen::new(5, 2);
    screen.apply(0, 0, &Text::new(&text("abcdef")).draw(10, 5, false, false));
    assert_eq!(screen.shown(), "abcde\nf\n");

    let right = TextProps {
        align: TextAlign::Right,
        ..text("this is an alignment test")
    };
    assert_eq!(shown(&right, Some(15)), "     this is an\n alignment test\n");
    let center = TextProps {
        align: TextAlign::Center,
        ..text("this is an alignment test")
    };
    assert_eq!(shown(&center, Some(15)), "  this is an\nalignment test\n");

    let bold = TextProps { bold: true, ..text("bold") };
    assert_eq!(render(&bold, None).style(0, 0).weight, Weight::Bold);
    let dim = TextProps { bold: true, dim: true, ..text("dim") };
    assert_eq!(render(&dim, None).style(0, 0).weight, Weight::Light);
    let under = TextProps { underline: true, ..text("under") };
    assert!(render(&under, None).style(0, 0).underline);
    let strike = TextProps { strikethrough: true, ..text("strike") };
    assert!(render(&strike, None).style(0, 0).strikethrough);
    let over = TextProps { overline: true, ..text("over") };
    assert!(render(&over, None).style(0, 0).overline);
    let inverse = TextProps { inverse: true, ..text("inverse") };
    assert!(render(&inverse, None).style(0, 0).invert);
    let background = TextProps {
        background_color: Some(Color::Blue),
        ..text("bg")
    };
    let screen = render(&background, None);
    assert_eq!(screen.rows[0][0].background, Some(Color::Blue));
    assert_eq!(screen.rows[0][1].background, Some(Color::Blue));

    let truncated = |content: &str, wrap: TextWrap, columns: usize| {
        shown(&TextProps { wrap, ..text(content) }, Some(columns))
    };
    assert_eq!(truncated("abcdef", TextWrap::Truncate, 5), "abcd…\n");
    assert_eq!(truncated("abcdef", TextWrap::TruncateStart, 5), "…cdef\n");
    assert_eq!(truncated("abcdef", TextWrap::TruncateMiddle, 5), "ab…ef\n");
    assert_eq!(truncated("界abc", TextWrap::TruncateEnd, 4), "界a…\n");
    assert_eq!(shown(&text("a\tb"), Some(8)), "a\nb\n");
    assert_eq!(truncated("  abc def", TextWrap::WrapTrim, 4), "abc\ndef\n");

    // The blanks before a text that is not aligned to the left are not underlined.
    let underlined = TextProps {
        align: TextAlign::Center,
        decoration: TextDecoration::Underline,
        ..text("this is an alignment test")
    };
    let screen = render(&underlined, Some(16));
    assert_eq!(screen.shown(), "   this is an\n alignment test\n");
    for (y, first, last) in [(0, 3, 12), (1, 1, 14)] {
        for x in 0..16 {
            let marked = screen.rows[y][x].style.is_some_and(|style| style.underline);
            if x < first {
                assert!(!marked);
            } else if x <= last {
                assert!(marked);
            }
        }
    }
}

#[test]
fn test_text_marks_soft_wrap_for_selection_copy() {
    let screen = render(&text("hello world"), Some(5));
    assert_eq!(screen.shown(), "hello\nworld\n");
    assert_eq!(screen.soft_wraps, vec![(1, 5)]);
    assert_eq!(screen.copied(), "helloworld");
}

#[test]
fn test_text_soft_wrap_selection_preserves_word_separator_when_rendered() {
    let screen = render(&text("hello world"), Some(6));
    assert_eq!(screen.shown(), "hello\nworld\n");
    assert_eq!(screen.soft_wraps, vec![(1, 6)]);
    assert_eq!(
        screen.copied(),
        "hello world",
        "the space that was drawn is copied, though the row is shown without it"
    );
}

#[test]
fn test_text_strips_ansi() {
    assert_eq!(shown(&text("\x1b[31mhello\x1b[0m"), None), "hello\n");
    assert_eq!(
        shown(&text("\x1b[1mthis is\x1b[0m a wrap test"), Some(10)),
        "this is a\nwrap test\n"
    );
    assert_eq!(shown(&text("no ansi here"), None), "no ansi here\n");
}

#[test]
fn test_text_invert() {
    let screen = render(&TextProps { invert: true, ..text("foo") }, None);
    assert!(screen.style(0, 0).invert);
}

#[test]
fn test_alignment_no_wrap_overflow() {
    let aligned = |content: &str, align: TextAlign| TextProps {
        align,
        wrap: TextWrap::NoWrap,
        ..text(content)
    };
    assert_eq!(
        shown(&aligned("123456789abcdef", TextAlign::Left), Some(9)),
        "123456789\n"
    );
    assert_eq!(
        shown(&aligned("123456789abcdef", TextAlign::Center), Some(9)),
        "456789abc\n"
    );
    assert_eq!(
        shown(&aligned("123456789abcdef\n1", TextAlign::Center), Some(9)),
        "456789abc\n    1\n"
    );

    // In a wider screen some of what overflows is seen.
    let mut screen = Screen::new(20, 1);
    let component = Text::new(&aligned("123456789abcdef", TextAlign::Center));
    screen.apply(2, 0, &component.draw(9, 18, false, false));
    assert_eq!(screen.shown(), "23456789abcdef\n");

    assert_eq!(
        shown(&aligned("123456789abcdef", TextAlign::Right), Some(9)),
        "789abcdef\n"
    );
}

#[test]
fn test_mixed_text() {
    assert_eq!(shown_mixed(&MixedTextProps::default(), None), "");
    assert_eq!(
        shown_mixed(
            &mixed(vec![
                MixedTextContent::new("this is ")
                    .color(Color::Red)
                    .weight(Weight::Bold)
                    .italic(),
                MixedTextContent::new("a wrapping test").decoration(TextDecoration::Underline),
            ]),
            Some(14)
        ),
        "this is a\nwrapping test\n"
    );
    assert_eq!(
        shown_mixed(
            &mixed(vec![MixedTextContent::new("a"), MixedTextContent::new("\tb")]),
            Some(8)
        ),
        "a\nb\n"
    );
}

#[test]
fn test_mixed_text_marks_soft_wrap_for_selection_copy() {
    let screen = render_mixed(
        &mixed(vec![
            MixedTextContent::new("hello ").color(Color::Red),
            MixedTextContent::new("world").weight(Weight::Bold),
        ]),
        Some(6),
    );
    assert_eq!(screen.shown(), "hello\nworld\n");
    assert_eq!(screen.soft_wraps, vec![(1, 6)]);
    assert_eq!(screen.copied(), "hello world");
}

#[test]
fn test_mixed_text_invert() {
    let screen = render_mixed(&mixed(vec![MixedTextContent::new("foo").invert()]), None);
    assert!(screen.style(0, 0).invert);
}

#[test]
fn test_mixed_text_strikethrough() {
    let screen = render_mixed(
        &mixed(vec![MixedTextContent::new("foo").strikethrough()]),
        None,
    );
    assert!(screen.style(0, 0).strikethrough);
}

#[test]
fn test_mixed_text_overline() {
    let screen = render_mixed(&mixed(vec![MixedTextContent::new("foo").overline()]), None);
    assert!(screen.style(0, 0).overline);
}

#[test]
fn test_mixed_text_background_color() {
    let screen = render_mixed(
        &mixed(vec![MixedTextContent::new("foo").background_color(Color::Blue)]),
        None,
    );
    assert_eq!(screen.rows[0][0].background, Some(Color::Blue));
    assert_eq!(screen.rows[0][2].background, Some(Color::Blue));
}

#[test]
fn test_mixed_text_truncate_preserves_segment_styles() {
    let screen = render_mixed(
        &MixedTextProps {
            wrap: TextWrap::TruncateMiddle,
            ..mixed(vec![
                MixedTextContent::new("abc").color(Color::Red),
                MixedTextContent::new("def").color(Color::Green),
            ])
        },
        Some(5),
    );
    assert_eq!(screen.shown(), "ab…ef\n");
    assert_eq!(screen.style(0, 0).color, Some(Color::Red));
    assert_eq!(screen.style(4, 0).color, Some(Color::Green));
}

#[test]
fn test_mixed_text_legacy_end_middle_wrap_modes_are_noops_like_cc_ink() {
    for wrap in [TextWrap::End, TextWrap::Middle] {
        let props = MixedTextProps {
            wrap,
            ..mixed(vec![MixedTextContent::new("abcdef")])
        };
        assert_eq!(shown_mixed(&props, Some(3)), "abc\n");
    }
}

#[test]
fn test_mixed_text_bidi_reorder_preserves_segment_metadata() {
    let reordered = reorder_bidi_segments(
        vec![
            RenderedMixedTextSegment {
                text: "אבג".to_string(),
                index: 0,
            },
            RenderedMixedTextSegment {
                text: "abc".to_string(),
                index: 1,
            },
        ],
        true,
    );
    assert_eq!(
        reordered
            .iter()
            .map(|segment| segment.text.as_str())
            .collect::<String>(),
        "abcגבא"
    );
    assert_eq!(
        reordered.iter().map(|segment| segment.index).collect::<Vec<_>>(),
        vec![1, 0]
    );
}

#[test]
fn test_mixed_text_wrap_trim() {
    let props = MixedTextProps {
        wrap: TextWrap::WrapTrim,
        ..mixed(vec![
            MixedTextContent::new("  abc ").color(Color::Red),
            MixedTextContent::new(" def").color(Color::Green),
        ])
    };
    assert_eq!(shown_mixed(&props, Some(4)), "abc\ndef\n");
}

#[test]
fn test_mixed_text_wrap_clamps_to_visible_canvas_width_like_cc_ink() {
    let component = MixedText::new(&mixed(vec![
        MixedTextContent::new("abcdef").color(Color::Red)
    ]));
    let mut screen = Screen::new(5, 2);
    screen.apply(0, 0, &component.draw(10, 5, false, false));
    assert_eq!(screen.shown(), "abcde\nf\n");
}

#[test]
fn test_mixed_text_strips_ansi() {
    assert_eq!(
        shown_mixed(
            &mixed(vec![
                MixedTextContent::new("\x1b[31mthis is \x1b[0m"),
                MixedTextContent::new("\x1b[1ma wrapping test\x1b[0m"),
            ]),
            Some(14)
        ),
        "this is a\nwrapping test\n"
    );
}

fn render_ansi(props: &AnsiProps, columns: Option<usize>) -> Screen {
    let ElementNode::MixedText(mixed) = Ansi(props).node else {
        panic!("a mixed text")
    };
    render_mixed(&mixed, columns)
}

fn ansi(content: &str) -> AnsiProps {
    AnsiProps {
        content: content.to_string(),
        ..AnsiProps::default()
    }
}

#[test]
fn test_ansi_component_parses_styles_and_wraps() {
    let screen = render_ansi(&ansi("\x1b[31;1mred\x1b[0m plain"), Some(7));
    assert_eq!(screen.shown(), "red\nplain\n");
    assert_eq!(screen.style(0, 0).color, Some(Color::DarkRed));
    assert_eq!(screen.style(0, 0).weight, Weight::Bold);
    assert_eq!(screen.style(0, 1).color, None);

    let screen = render_ansi(&ansi("\x1b[53mover\x1b[55m plain"), None);
    assert!(screen.style(0, 0).overline);
    assert!(!screen.style(5, 0).overline);
}

#[test]
fn test_ansi_component_uses_default_color_until_sgr_overrides() {
    let props = AnsiProps {
        color: Some(Color::Blue),
        ..ansi("base \x1b[31mred\x1b[0m base")
    };
    let screen = render_ansi(&props, None);
    assert_eq!(screen.shown(), "base red base\n");
    assert_eq!(screen.style(0, 0).color, Some(Color::Blue));
    assert_eq!(screen.style(5, 0).color, Some(Color::DarkRed));
    assert_eq!(screen.style(9, 0).color, Some(Color::Blue));
}

#[test]
fn test_ansi_component_dim_color_and_osc8_links() {
    let props = AnsiProps {
        dim_color: true,
        ..ansi("\x1b]8;;https://example.com\x07link\x1b]8;;\x07")
    };
    let screen = render_ansi(&props, None);
    assert_eq!(screen.shown(), "link\n");
    assert_eq!(screen.style(0, 0).weight, Weight::Light);
    assert_eq!(
        screen.rows[0][0].link.as_deref(),
        Some("https://example.com")
    );
}

#[test]
fn test_ansi_component_keeps_osc8_link_across_sgr_reset() {
    let props = ansi("\x1b]8;;https://example.com\x07\x1b[31mred\x1b[0m plain\x1b]8;;\x07");
    let screen = render_ansi(&props, None);
    assert_eq!(screen.shown(), "red plain\n");
    assert_eq!(screen.style(0, 0).color, Some(Color::DarkRed));
    assert_eq!(screen.style(4, 0).color, None);
    assert_eq!(
        screen.rows[0][4].link.as_deref(),
        Some("https://example.com")
    );
}

#[test]
fn test_raw_ansi_skips_non_sgr_escape_and_string_sequences() {
    let mut raw = RawAnsi::new(false);
    raw.update(&RawAnsiProps {
        lines: vec!["A\x08B\x1bPignored\x1b\\C\x1b_ignored\x07D\x1b(0E\x1b[2KF".to_string()],
        width: 6,
    });
    let mut screen = Screen::new(6, 1);
    screen.apply(0, 0, &raw.draw(false));
    assert_eq!(screen.shown(), "ABCDEF\n");
}

fn render_link(props: &LinkProps, supported: bool) -> Screen {
    let ElementNode::Text(text) = Link(props, supported).node else {
        panic!("a text")
    };
    render(&text, None)
}

#[test]
fn test_link_renders_osc8_hyperlink_metadata() {
    let screen = render_link(
        &LinkProps {
            url: "https://example.com".to_string(),
            label: Some("docs".to_string()),
            enabled: Some(true),
            ..LinkProps::default()
        },
        false,
    );
    assert_eq!(screen.shown(), "docs\n");
    assert_eq!(
        screen.rows[0][1].link.as_deref(),
        Some("https://example.com")
    );
}

#[test]
fn test_link_fallback_disables_hyperlink_metadata() {
    let screen = render_link(
        &LinkProps {
            url: "https://example.com".to_string(),
            label: Some("docs".to_string()),
            fallback: Some("plain docs".to_string()),
            enabled: Some(false),
        },
        true,
    );
    assert_eq!(screen.shown(), "plain docs\n");
    assert_eq!(screen.rows[0][1].link, None);
}

#[test]
fn a_link_follows_the_terminal_unless_it_is_told() {
    let props = LinkProps {
        url: "https://example.com".to_string(),
        ..LinkProps::default()
    };
    let screen = render_link(&props, true);
    assert_eq!(screen.shown(), "https://example.com\n");
    assert!(screen.rows[0][0].link.is_some());
    assert!(render_link(&props, false).rows[0][0].link.is_none());
}

#[test]
fn widths_count_clusters_and_columns() {
    assert_eq!(string_display_width("abc"), 3);
    assert_eq!(string_display_width("界a"), 3);
    assert_eq!(string_display_width("e\u{301}"), 1, "one cluster of two characters");
    assert_eq!(string_display_width("a\tb"), 9);
    assert_eq!(cluster_display_width("\t", 3), 5);
}

#[test]
fn words_wrap_and_the_space_between_them_is_dropped() {
    let lines = wrap_lines("aa bb  cc", TextWrap::Wrap, 5);
    let texts: Vec<&str> = lines.iter().map(|line| line.text.as_str()).collect();
    assert_eq!(texts, vec!["aa bb", "cc"]);
    let soft: Vec<bool> = lines.iter().map(|line| line.soft_continuation).collect();
    assert_eq!(soft, vec![false, true]);
    for line in &lines {
        assert!(string_display_width(&line.text) <= 5);
    }
    assert_eq!(wrap_lines("", TextWrap::Wrap, 5).len(), 1, "no text is one line");
}

#[test]
fn segments_keep_their_indices_when_they_wrap() {
    let lines = wrap_segments(&vec!["one ".to_string(), "two".to_string()], 4);
    assert_eq!(lines.len(), 2);
    assert_eq!(lines[0].segments[0].index, 0);
    assert_eq!(lines[1].segments[0].index, 1);
    assert_eq!(lines[1].segments[0].text, "two");
}

#[test]
fn a_text_is_measured_in_the_width_it_gets() {
    assert_eq!(
        measure_for_layout("one two", TextWrap::Wrap, None, AvailableSpace::MaxContent),
        (7, 1)
    );
    assert_eq!(
        measure_for_layout("one two", TextWrap::Wrap, None, AvailableSpace::Definite(4)),
        (3, 2)
    );
    assert_eq!(
        measure_for_layout("one two", TextWrap::NoWrap, Some(4), AvailableSpace::MaxContent),
        (7, 1)
    );
    assert_eq!(
        measure_for_layout("", TextWrap::Wrap, None, AvailableSpace::MaxContent),
        (0, 0)
    );
}

#[test]
fn alignment_pads_on_the_left() {
    assert_eq!(alignment_padding(4, TextAlign::Left, 9), 0);
    assert_eq!(alignment_padding(4, TextAlign::Center, 9), 2);
    assert_eq!(alignment_padding(4, TextAlign::Right, 9), 5);
    assert_eq!(alignment_padding(15, TextAlign::Center, 9), -3);
    assert_eq!(alignment_padding(15, TextAlign::Right, 9), -6);
}

/// The texts that are written, with the columns that they start in.
fn written(ops: &[DrawOp]) -> Vec<(isize, String)> {
    ops.iter()
        .filter_map(|op| match op {
            DrawOp::SetText { x, text, .. } => Some((*x, text.clone())),
            _ => None,
        })
        .collect()
}

fn aligned(content: &str, align: TextAlign) -> Text {
    Text::new(&TextProps {
        content: content.to_string(),
        wrap: TextWrap::NoWrap,
        align,
        ..TextProps::default()
    })
}

fn aligned_mixed(contents: &[&str], align: TextAlign) -> MixedText {
    MixedText::new(&MixedTextProps {
        contents: contents.iter().map(|text| MixedTextContent::new(text)).collect(),
        wrap: TextWrap::NoWrap,
        align,
    })
}

#[test]
fn white_space_at_the_start_of_an_aligned_row_is_passed_over() {
    let ops = aligned("  x", TextAlign::Right).try_draw(6, 6, false, false).unwrap();
    assert_eq!(written(&ops), vec![(5, "x".to_string())]);
    let ops = aligned("  x", TextAlign::Left).try_draw(6, 6, false, false).unwrap();
    assert_eq!(written(&ops), vec![(0, "  x".to_string())]);
}

#[test]
fn as_many_bytes_are_passed_over_as_there_are_blank_characters() {
    let text = aligned("\u{a0} x", TextAlign::Right);
    let expected = vec![(4, " x".to_string())];
    assert_eq!(written(&text.draw(6, 6, false, false)), expected);
    assert_eq!(written(&text.try_draw(6, 6, false, false).unwrap()), expected);
    let mixed = aligned_mixed(&["\u{a0} x", " y"], TextAlign::Right);
    let expected = vec![(2, " x".to_string()), (4, " y".to_string())];
    assert_eq!(written(&mixed.draw(6, 6, false, false)), expected);
    assert_eq!(written(&mixed.try_draw(6, 6, false, false).unwrap()), expected);
}

#[test]
fn a_row_that_cannot_be_split_behind_its_white_space_is_not_drawn() {
    let text = aligned("\u{3000}x", TextAlign::Right);
    assert!(text.try_draw(6, 6, false, false).is_none());
    assert!(text.try_draw(6, 6, true, false).unwrap().is_empty());
    assert!(aligned("\u{3000}x", TextAlign::Left).try_draw(6, 6, false, false).is_some());
    let mixed = aligned_mixed(&[" ", "\u{3000}x"], TextAlign::Center);
    assert!(mixed.try_draw(6, 6, false, false).is_none());
    let mixed = aligned_mixed(&["a", "\u{3000}x"], TextAlign::Center);
    assert!(mixed.try_draw(6, 6, false, false).is_some());
}

#[test]
fn right_to_left_text_is_drawn_in_visual_order() {
    let component = Text::new(&text("אבג abc"));
    let drawn = |software_bidi: bool| {
        let mut screen = Screen::new(7, 1);
        screen.apply(0, 0, &component.draw(7, 7, false, software_bidi));
        screen.shown()
    };
    assert_eq!(drawn(false), "אבג abc\n");
    assert_eq!(drawn(true), "abc גבא\n");
}

#[test]
fn stripping_leaves_the_characters_that_are_seen() {
    assert_eq!(strip_ansi("\x1b[1mbold\x1b[0m and \x1b]8;;x\x07link\x1b]8;;\x07"), "bold and link");
    assert_eq!(strip_ansi("plain"), "plain");
}

#[test]
fn columns_of_segments_are_sliced_with_their_sections() {
    let segments = vec![
        RenderedMixedTextSegment { text: "abc".to_string(), index: 4 },
        RenderedMixedTextSegment { text: "def".to_string(), index: 9 },
    ];
    let slice = slice_segments_by_columns(&segments, 2, 4);
    assert_eq!(
        slice,
        vec![
            RenderedMixedTextSegment { text: "c".to_string(), index: 4 },
            RenderedMixedTextSegment { text: "d".to_string(), index: 9 },
        ]
    );
    assert_eq!(segment_index_at_column(&segments, 2), 4);
    assert_eq!(segment_index_at_column(&segments, 3), 9);
}

#[test]
fn a_truncated_line_fits_its_columns() {
    let wide = "界界界";
    assert_eq!(wrap_text(wide, 4, TextWrap::TruncateEnd), "界…");
    assert_eq!(wrap_text(wide, 4, TextWrap::TruncateStart), "…界");
    assert_eq!(wrap_text(wide, 5, TextWrap::TruncateMiddle), "界…界");
    assert_eq!(wrap_text(wide, 6, TextWrap::TruncateEnd), wide);
    assert_eq!(wrap_text(wide, 1, TextWrap::TruncateEnd), "…");
    assert_eq!(wrap_text(wide, 0, TextWrap::TruncateEnd), "");
    let lines = wrap_text("one\ntwo lines\n", 4, TextWrap::Truncate);
    assert_eq!(lines, "one\ntwo…\n");
}

#[test]
fn a_single_content_is_truncated_like_a_text() {
    let text = "a界bc界d";
    for columns in 2..10 {
        for position in [
            TruncatePosition::Start,
            TruncatePosition::Middle,
            TruncatePosition::End,
        ] {
            let segments = vec![RenderedMixedTextSegment {
                text: text.to_string(),
                index: 3,
            }];
            let shown: String = truncate_segments(&segments, columns, position)
                .into_iter()
                .map(|segment| segment.text)
                .collect();
            assert_eq!(shown, truncate_line(text, columns, position));
            assert!(string_display_width(&shown) <= columns);
        }
    }
}

#[test]
fn printable_lines_are_cut_to_exactly_their_columns() {
    let text = "alpha beta gamma\nshort\n\n~!@ {x} 0123456789";
    assert_eq!(string_display_width("\u{2026}"), 1);
    let ascii: String = (' '..='~').collect();
    assert_eq!(string_display_width(&ascii), ascii.len());
    for wrap in [TextWrap::Truncate, TextWrap::TruncateMiddle, TextWrap::TruncateStart] {
        for columns in 2..20 {
            let cut = wrap_text(text, columns, wrap);
            assert_eq!(cut.split('\n').count(), 4);
            for (line, shown) in text.split('\n').zip(cut.split('\n')) {
                if line.len() <= columns {
                    assert_eq!(shown, line);
                } else {
                    assert_eq!(shown.chars().count(), columns);
                    let (before, after) = shown.split_once('\u{2026}').unwrap();
                    assert!(line.starts_with(before) && line.ends_with(after));
                    assert!(!after.contains('\u{2026}'));
                }
            }
            assert_eq!(wrap_text(&cut, columns, wrap), cut);
        }
    }
    assert_eq!(wrap_text("abcdefgh", 6, TextWrap::TruncateMiddle), "abc\u{2026}gh");
}
