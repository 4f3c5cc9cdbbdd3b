use iocraft::border::{
    border_text_fits, embedded_border_line_segments, BorderCharacters, BorderStyle, BorderText,
    BorderTextAlign, BorderTextPosition,
};
use iocraft::boxes::{
    Newline, NewlineProps, NoSelect, NoSelectProps, Notification, NotificationViewport,
    NotificationViewportProps, Spacer, SpacerProps,
};
use iocraft::canvas::{cluster_display_width, DrawOp};
use iocraft::element::{AnyElement, ElementNode, FragmentProps};
use iocraft::error_boundary::{CapturedPanic, ErrorBoundary, PanicPayload};
use iocraft::error_overview::{
    build_excerpt, format_location, strip_file_scheme, text_lines, ErrorLocation, ErrorOverview,
    ErrorOverviewProps,
};
use iocraft::mixed_text::{MixedText, MixedTextProps};
use iocraft::style::{
    CanvasTextStyle, Color, Dimension, FlexDirection, LayoutStyle, Weight,
};
use iocraft::text::{Text, TextProps};
use iocraft::text_wrap::AvailableSpace;
use iocraft::view::View;
use iocraft::view_event::ViewId;
use iocraft::view_props::{BorderProps, ViewProps};
use taffy::prelude::{NodeId, Rect, Size, Style, TaffyTree};
use unicode_segmentation::UnicodeSegmentation;

#[derive(Clone, Debug, Default)]
struct Cell {
    text: String,
    covered: bool,
    style: Option<CanvasTextStyle>,
    background: Option<Color>,
    no_select: bool,
}

/// The cells that a component may draw on.
#[derive(Clone, Copy)]
struct Clip {
    left: isize,
    right: isize,
    top: isize,
    bottom: isize,
}

struct Screen {
    rows: Vec<Vec<Cell>>,
}

impl Screen {
    fn new(width: usize, height: usize) -> Screen {
        Screen {
            rows: vec![vec![Cell::default(); width]; height],
        }
    }

    fn cell_mut(&mut self, x: isize, y: isize, clip: Clip) -> Option<&mut Cell> {
        if x < clip.left.max(0) || x >= clip.right || y < clip.top.max(0) || y >= clip.bottom {
            return None;
        }
        self.rows.get_mut(y as usize)?.get_mut(x as usize)
    }

    fn put(&mut self, x: isize, y: isize, text: &str, style: &CanvasTextStyle, clip: Clip) {
        let mut column = x;
        for cluster in text.graphemes(true) {
            let width = cluster_display_width(cluster, column.max(0) as usize) as isize;
            for offset in 0..width {
                if let Some(cell) = self.cell_mut(column + offset, y, clip) {
                    cell.covered = offset > 0;
                    cell.text = if offset > 0 {
                        String::new()
                    } else {
                        cluster.to_string()
                    };
                    cell.style = Some(*style);
                }
            }
            column += width;
        }
    }

    fn each(
        &mut self,
        at: (isize, isize),
        size: (usize, usize),
        clip: Clip,
        change: &dyn Fn(&mut Cell),
    ) {
        for row in 0..size.1 as isize {
            for column in 0..size.0 as isize {
                if let Some(cell) = self.cell_mut(at.0 + column, at.1 + row, clip) {
                    change(cell);
                }
            }
        }
    }

    fn apply(&mut self, x: isize, y: isize, ops: &[DrawOp], clip: Clip) {
        for op in ops {
            match op {
                DrawOp::SetText { x: dx, y: dy, text, style, .. } => {
                    self.put(x + dx, y + dy, text, style, clip)
                }
                DrawOp::SetBackground { x: dx, y: dy, width, height, color } => {
                    self.each((x + dx, y + dy), (*width, *height), clip, &|cell| {
                        cell.background = Some(*color)
                    })
                }
                DrawOp::ClearText { x: dx, y: dy, width, height } => {
                    self.each((x + dx, y + dy), (*width, *height), clip, &|cell| {
                        cell.text = String::new();
                        cell.covered = false;
                        cell.style = None;
                    })
                }
                DrawOp::MarkNoSelect { x: dx, y: dy, width, height } => {
                    self.each((x + dx, y + dy), (*width, *height), clip, &|cell| {
                        cell.no_select = true
                    })
                }
                DrawOp::MarkSoftWrap { .. } => {}
            }
        }
    }

    fn shown(&self) -> String {
        let row = |cells: &Vec<Cell>| {
            cells
                .iter()
                .filter(|cell| !cell.covered)
                .map(|cell| if cell.text.is_empty() { " " } else { cell.text.as_str() })
                .collect::<String>()
        };
        self.rows
            .iter()
            .map(|cells| format!("{}\n", row(cells).trim_end()))
            .collect()
    }

    fn style(&self, x: usize, y: usize) -> CanvasTextStyle {
        self.rows[y][x].style.unwrap()
    }

    fn is_no_select(&self, x: usize, y: usize) -> bool {
        self.rows[y].get(x).is_some_and(|cell| cell.no_select)
    }
}

/// What stands at a node of the layout.
enum Part {
    Boxed(View),
    Words(Text),
    Mixed(MixedText),
    Blank,
}

impl Part {
    fn measure(&self, known: Option<usize>, available: AvailableSpace) -> (usize, usize) {
        match self {
            Part::Words(text) => text.measure(known, available),
            Part::Mixed(text) => text.measure(known, available),
            _ => (0, 0),
        }
    }
}

struct Node {
    style: Style,
    part: Part,
    clips: bool,
    children: Vec<Node>,
}

fn edge(shown: bool) -> taffy::style::LengthPercentage {
    taffy::style::LengthPercentage::length(if shown { 1.0 } else { 0.0 })
}

fn boxed(props: ViewProps, style: Style, children: Vec<Node>) -> Node {
    let mut view = View::new(ViewId(0));
    view.update_style(&props);
    let border = view.layout_border();
    Node {
        style: Style {
            border: Rect {
                left: edge(border.left),
                right: edge(border.right),
                top: edge(border.top),
                bottom: edge(border.bottom),
            },
            ..style
        },
        part: Part::Boxed(view),
        clips: false,
        children,
    }
}

fn text_props(content: &str) -> TextProps {
    TextProps {
        content: content.to_string(),
        ..TextProps::default()
    }
}

fn words(content: &str) -> Node {
    Node {
        style: Style::default(),
        part: Part::Words(Text::new(&text_props(content))),
        clips: false,
        children: Vec::new(),
    }
}

fn blank(layout: &LayoutStyle) -> Node {
    Node {
        style: style_of(layout),
        part: Part::Blank,
        clips: false,
        children: Vec::new(),
    }
}

fn bare(style: Style, children: Vec<Node>) -> Node {
    boxed(ViewProps::default(), style, children)
}

fn dimension(value: Dimension) -> taffy::style::Dimension {
    match value {
        Dimension::Auto => taffy::style::Dimension::auto(),
        Dimension::Length(cells) => taffy::style::Dimension::length(cells as f32),
        Dimension::Percent(percent) => taffy::style::Dimension::percent(percent as f32 / 100.0),
    }
}

fn padding(cells: u32) -> taffy::style::LengthPercentage {
    taffy::style::LengthPercentage::length(cells as f32)
}

fn style_of(layout: &LayoutStyle) -> Style {
    Style {
        size: Size {
            width: dimension(layout.width),
            height: dimension(layout.height),
        },
        min_size: Size {
            width: taffy::style::Dimension::auto(),
            height: dimension(layout.min_height),
        },
        flex_direction: match layout.flex_direction {
            FlexDirection::Row => taffy::style::FlexDirection::Row,
            FlexDirection::Column => taffy::style::FlexDirection::Column,
        },
        flex_grow: layout.flex_grow as f32,
        flex_shrink: layout.flex_shrink as f32,
        padding: Rect {
            left: padding(layout.padding_left),
            right: padding(layout.padding_right),
            top: padding(layout.padding_top),
            bottom: padding(layout.padding_bottom),
        },
        margin: Rect {
            left: taffy::style::LengthPercentageAuto::length(0.0),
            right: taffy::style::LengthPercentageAuto::length(0.0),
            top: taffy::style::LengthPercentageAuto::length(layout.margin_top as f32),
            bottom: taffy::style::LengthPercentageAuto::length(0.0),
        },
        ..Style::default()
    }
}

/// The nodes of an element; a fragment has none of its own.
fn nodes(element: AnyElement) -> Vec<Node> {
    match element.node {
        ElementNode::View(props) => {
            let style = style_of(&props.layout);
            let mut props = props;
            let children = props.children.drain(..).flat_map(nodes).collect();
            vec![boxed(props, style, children)]
        }
        ElementNode::Text(props) => vec![Node {
            style: Style::default(),
            part: Part::Words(Text::new(&props)),
            clips: false,
            children: Vec::new(),
        }],
        ElementNode::MixedText(props) => vec![mixed_node(&props)],
        ElementNode::Fragment(props) => props.children.into_iter().flat_map(nodes).collect(),
        ElementNode::ContextProvider(props) => {
            props.children.into_iter().flat_map(nodes).collect()
        }
        ElementNode::ErrorOverview(props) => nodes(ErrorOverview(&props, &None, &None)),
        other => panic!("no node for {other:?}"),
    }
}

fn mixed_node(props: &MixedTextProps) -> Node {
    Node {
        style: Style::default(),
        part: Part::Mixed(MixedText::new(props)),
        clips: false,
        children: Vec::new(),
    }
}

struct Placed {
    id: NodeId,
    position: taffy::style::Position,
    part: Part,
    clips: bool,
    children: Vec<Placed>,
}

/// Adds a node and those inside of it to the layout; `parts` measures the texts.
fn place(tree: &mut TaffyTree<usize>, parts: &mut Vec<Option<Part>>, node: Node) -> Placed {
    let position = node.style.position;
    if node.children.is_empty() {
        let at = parts.len();
        let id = tree.new_leaf_with_context(node.style, at).unwrap();
        parts.push(Some(node.part));
        return Placed {
            id,
            position,
            part: Part::Blank,
            clips: node.clips,
            children: Vec::new(),
        };
    }
    let children: Vec<Placed> = node
        .children
        .into_iter()
        .map(|child| place(tree, parts, child))
        .collect();
    let ids: Vec<NodeId> = children.iter().map(|child| child.id).collect();
    let id = tree.new_with_children(node.style, &ids).unwrap();
    Placed {
        id,
        position,
        part: node.part,
        clips: node.clips,
        children,
    }
}

fn space(available: taffy::style::AvailableSpace) -> AvailableSpace {
    match available {
        taffy::style::AvailableSpace::Definite(width) => AvailableSpace::Definite(width as usize),
        taffy::style::AvailableSpace::MinContent => AvailableSpace::MinContent,
        taffy::style::AvailableSpace::MaxContent => AvailableSpace::MaxContent,
    }
}

struct Renderer {
    tree: TaffyTree<usize>,
    parts: Vec<Option<Part>>,
    screen: Screen,
}

impl Renderer {
    fn draw(&mut self, placed: &mut Placed, origin: (isize, isize), shares_row: bool, clip: Clip) {
        let layout = *self.tree.layout(placed.id).unwrap();
        let x = origin.0 + layout.location.x as isize;
        let mut y = origin.1 + layout.location.y as isize;
        if placed.position == taffy::style::Position::Absolute && y < 0 {
            y = 0;
        }
        let (width, height) = (layout.size.width as usize, layout.size.height as usize);
        let remaining = self.screen.rows.first().map_or(0, |row| row.len()) as isize - x;
        let leaf = self.tree.get_node_context(placed.id).copied();
        let part = match leaf {
            Some(at) => self.parts[at].as_mut().unwrap(),
            None => &mut placed.part,
        };
        let mut inside = clip;
        let mut skip = false;
        let ops = match part {
            Part::Boxed(view) => {
                let drawing = view
                    .try_draw(x as i16, y as i16, width as u16, height as u16, shares_row)
                    .unwrap();
                skip = drawing.skip_children;
                drawing.ops
            }
            Part::Words(text) => text.draw(width, remaining.max(0) as usize, shares_row, false),
            Part::Mixed(text) => text.draw(width, remaining.max(0) as usize, shares_row, false),
            Part::Blank => Vec::new(),
        };
        self.screen.apply(x, y, &ops, clip);
        if skip {
            return;
        }
        if placed.clips {
            inside = Clip {
                left: x + 1,
                right: x + width as isize - 1,
                top: y + 1,
                bottom: y + height as isize - 1,
            };
        }
        let tops: Vec<(isize, isize)> = placed
            .children
            .iter()
            .map(|child| {
                let layout = self.tree.layout(child.id).unwrap();
                (layout.location.y as isize, layout.size.height as isize)
            })
            .collect();
        for (at, child) in placed.children.iter_mut().enumerate() {
            let shares = tops[at].1 == 0
                && (0..tops.len()).any(|other| other != at && tops[other].0 == tops[at].0);
            self.draw(child, (x, y), shares, inside);
        }
    }
}

fn render_in(node: Node, width: Option<usize>) -> Screen {
    let mut tree: TaffyTree<usize> = TaffyTree::new();
    let mut parts = Vec::new();
    let mut root = place(
        &mut tree,
        &mut parts,
        Node {
            style: Style {
                flex_direction: taffy::style::FlexDirection::Column,
                ..Style::default()
            },
            part: Part::Blank,
            clips: false,
            children: vec![node],
        },
    );
    let available = match width {
        Some(width) => taffy::style::AvailableSpace::Definite(width as f32),
        None => taffy::style::AvailableSpace::MaxContent,
    };
    tree.compute_layout_with_measure(
        root.id,
        Size {
            width: available,
            height: taffy::style::AvailableSpace::MaxContent,
        },
        |known, available, _, at, _| {
            let Some(Some(part)) = at.map(|at| parts[*at].as_ref()) else {
                return Size::ZERO;
            };
            let (width, height) = part.measure(
                known.width.map(|width| width as usize),
                space(available.width),
            );
            Size {
                width: width as f32,
                height: height as f32,
            }
        },
    )
    .unwrap();
    let size = tree.layout(root.id).unwrap().size;
    let mut renderer = Renderer {
        tree,
        parts,
        screen: Screen::new(size.width as usize, size.height as usize),
    };
    let clip = Clip {
        left: 0,
        right: isize::MAX,
        top: 0,
        bottom: isize::MAX,
    };
    renderer.draw(&mut root, (0, 0), false, clip);
    renderer.screen
}

fn render(node: Node) -> Screen {
    render_in(node, None)
}

fn shown(node: Node) -> String {
    render(node).shown()
}

fn render_element(element: AnyElement) -> Screen {
    render(bare(Style::default(), nodes(element)))
}

fn cells(count: f32) -> taffy::style::Dimension {
    taffy::style::Dimension::length(count)
}

fn percent(part: f32) -> taffy::style::Dimension {
    taffy::style::Dimension::percent(part)
}

fn sized(width: f32, height: Option<f32>) -> Style {
    Style {
        size: Size {
            width: cells(width),
            height: height.map_or(taffy::style::Dimension::auto(), cells),
        },
        ..Style::default()
    }
}

fn column() -> Style {
    Style {
        flex_direction: taffy::style::FlexDirection::Column,
        ..Style::default()
    }
}

fn margins(left: f32, right: f32, top: f32, bottom: f32) -> Rect<taffy::style::LengthPercentageAuto> {
    Rect {
        left: taffy::style::LengthPercentageAuto::length(left),
        right: taffy::style::LengthPercentageAuto::length(right),
        top: taffy::style::LengthPercentageAuto::length(top),
        bottom: taffy::style::LengthPercentageAuto::length(bottom),
    }
}

fn inset(left: Option<f32>, top: f32) -> Rect<taffy::style::LengthPercentageAuto> {
    let auto = taffy::style::LengthPercentageAuto::auto();
    Rect {
        left: left.map_or(auto, taffy::style::LengthPercentageAuto::length),
        right: auto,
        top: taffy::style::LengthPercentageAuto::length(top),
        bottom: auto,
    }
}

fn bordered(style: BorderStyle) -> ViewProps {
    ViewProps {
        border: BorderProps {
            style,
            ..BorderProps::default()
        },
        ..ViewProps::default()
    }
}

fn framed(style: BorderStyle, content: &str, margin_right: f32) -> Node {
    boxed(
        bordered(style),
        Style {
            margin: margins(0.0, margin_right, 0.0, 0.0),
            ..Style::default()
        },
        vec![words(content)],
    )
}

fn centered(width: f32, content: &str) -> Node {
    boxed(
        bordered(BorderStyle::Single),
        Style {
            justify_content: Some(taffy::style::JustifyContent::Center),
            ..sized(width, None)
        },
        vec![words(content)],
    )
}

fn titled(style: BorderStyle, text: BorderText) -> ViewProps {
    ViewProps {
        border_text: Some(text),
        ..bordered(style)
    }
}

#[test]
fn test_view_border_edge_styles_and_dashed_style() {
    let props = ViewProps {
        border: BorderProps {
            style: BorderStyle::Single,
            top_color: Some(Color::Red),
            right_color: Some(Color::Green),
            bottom_color: Some(Color::Blue),
            left_color: Some(Color::Yellow),
            dim_color: true,
            right_dim_color: Some(false),
            ..BorderProps::default()
        },
        ..ViewProps::default()
    };
    let screen = render(boxed(props, sized(4.0, Some(3.0)), vec![]));
    assert_eq!(screen.shown(), "┌──┐\n│  │\n└──┘\n");
    assert_eq!(screen.style(0, 0).color, Some(Color::Red));
    assert_eq!(screen.style(0, 0).weight, Weight::Light);
    assert_eq!(screen.style(3, 1).color, Some(Color::Green));
    assert_eq!(screen.style(3, 1).weight, Weight::Normal);
    assert_eq!(screen.style(0, 2).color, Some(Color::Blue));
    assert_eq!(screen.style(0, 2).weight, Weight::Light);
    assert_eq!(screen.style(0, 1).color, Some(Color::Yellow));
    assert_eq!(screen.style(0, 1).weight, Weight::Light);

    assert_eq!(
        shown(boxed(bordered(BorderStyle::Dashed), sized(4.0, Some(3.0)), vec![])),
        " ╌╌\n╎  ╎\n ╌╌\n"
    );

    let mut props = bordered(BorderStyle::Single);
    props.border.top = Some(false);
    assert_eq!(
        shown(boxed(props, sized(4.0, Some(3.0)), vec![])),
        "│  │\n│  │\n└──┘\n"
    );
    let mut props = bordered(BorderStyle::Single);
    props.border.left = Some(false);
    props.border.right = Some(false);
    assert_eq!(
        shown(boxed(props, sized(4.0, Some(3.0)), vec![])),
        "────\n\n────\n"
    );
}

#[test]
fn test_view_background_color_fills_interior_not_border() {
    let props = ViewProps {
        background_color: Some(Color::Blue),
        ..bordered(BorderStyle::Single)
    };
    let screen = render(boxed(props, sized(5.0, Some(3.0)), vec![]));
    assert_eq!(screen.shown(), "┌───┐\n│   │\n└───┘\n");
    assert_eq!(screen.rows[1][1].background, Some(Color::Blue));
    assert_eq!(screen.rows[0][0].background, None);
    assert_eq!(screen.rows[1][0].background, None);
    assert_eq!(screen.rows[1][4].background, None);
    assert_eq!(screen.rows[2][0].background, None);
}

#[test]
fn test_view_border_text_parses_ansi_content() {
    let props = titled(
        BorderStyle::Single,
        BorderText {
            content: "\x1b[31;1mHi\x1b[0m".to_string(),
            position: BorderTextPosition::Top,
            align: BorderTextAlign::Center,
            offset: 0,
        },
    );
    let screen = render(boxed(props, sized(12.0, None), vec![words("body")]));
    assert_eq!(
        screen.shown(),
        "┌────Hi────┐\n│body      │\n└──────────┘\n"
    );
    assert_eq!(screen.style(5, 0).color, Some(Color::DarkRed));
    assert_eq!(screen.style(5, 0).weight, Weight::Bold);
    assert_eq!(screen.style(4, 0).color, None);
}

#[test]
fn test_view() {
    assert_eq!(shown(bare(Style::default(), vec![])), "");
    assert_eq!(
        shown(bare(Style::default(), vec![words("foo"), words("bar")])),
        "foobar\n"
    );
    let one = taffy::style::LengthPercentage::length(1.0);
    assert_eq!(
        shown(bare(
            Style {
                padding: Rect { left: one, right: one, top: one, bottom: one },
                ..Style::default()
            },
            vec![words("foo")]
        )),
        "\n foo\n\n"
    );
    assert_eq!(
        shown(bare(
            Style {
                margin: margins(2.0, 2.0, 2.0, 2.0),
                ..Style::default()
            },
            vec![words("foo")]
        )),
        "\n\n  foo\n\n\n"
    );

    let part = |width: f32, content: &str| {
        bare(
            Style {
                size: Size {
                    width: percent(width),
                    height: taffy::style::Dimension::auto(),
                },
                ..Style::default()
            },
            vec![words(content)],
        )
    };
    assert_eq!(
        shown(bare(
            sized(20.0, None),
            vec![part(0.6, "foo"), part(0.4, "bar")]
        )),
        "foo         bar\n"
    );
    assert_eq!(
        shown(boxed(
            bordered(BorderStyle::Single),
            sized(20.0, None),
            vec![part(0.6, "foo"), part(0.4, "bar")]
        )),
        "┌──────────────────┐\n│foo        bar    │\n└──────────────────┘\n"
    );

    let first = bare(
        Style::default(),
        vec![
            framed(BorderStyle::Single, "Single", 2.0),
            framed(BorderStyle::Double, "Double", 2.0),
            framed(BorderStyle::Round, "Round", 2.0),
            framed(BorderStyle::Bold, "Bold", 0.0),
        ],
    );
    let second = bare(
        Style {
            margin: margins(0.0, 0.0, 1.0, 0.0),
            ..Style::default()
        },
        vec![
            framed(BorderStyle::DoubleLeftRight, "DoubleLeftRight", 2.0),
            framed(BorderStyle::DoubleTopBottom, "DoubleTopBottom", 2.0),
            framed(BorderStyle::Classic, "Classic", 0.0),
        ],
    );
    assert_eq!(
        shown(bare(column(), vec![first, second])),
        "┌──────┐  ╔══════╗  ╭─────╮  ┏━━━━┓\n\
         │Single│  ║Double║  │Round│  ┃Bold┃\n\
         └──────┘  ╚══════╝  ╰─────╯  ┗━━━━┛\n\
         \n\
         ╓───────────────╖  ╒═══════════════╕  +-------+\n\
         ║DoubleLeftRight║  │DoubleTopBottom│  |Classic|\n\
         ╙───────────────╜  ╘═══════════════╛  +-------+\n"
    );

    assert_eq!(
        shown(centered(8.0, "✅")),
        "┌──────┐\n│  ✅  │\n└──────┘\n"
    );
    assert_eq!(
        shown(centered(8.0, "☀️")),
        "┌──────┐\n│  ☀️  │\n└──────┘\n"
    );
    assert_eq!(
        shown(centered(8.0, "☀️☀️")),
        "┌──────┐\n│ ☀️☀️ │\n└──────┘\n"
    );
    assert_eq!(
        shown(centered(12.0, "フーバー")),
        "┌──────────┐\n│ フーバー │\n└──────────┘\n"
    );

    let title = bare(
        Style {
            margin: margins(0.0, 0.0, -1.0, 0.0),
            ..Style::default()
        },
        vec![words("Title")],
    );
    assert_eq!(
        shown(boxed(
            bordered(BorderStyle::Round),
            column(),
            vec![title, words("Hello, world!")]
        )),
        "╭Title────────╮\n│Hello, world!│\n╰─────────────╯\n"
    );

    let over = |props: ViewProps, style: Style, children: Vec<Node>| {
        shown(bare(
            Style::default(),
            vec![
                words("This is the background text."),
                boxed(
                    props,
                    Style {
                        position: taffy::style::Position::Absolute,
                        inset: inset(Some(3.0), 0.0),
                        ..style
                    },
                    children,
                ),
            ],
        ))
    };
    assert_eq!(
        over(ViewProps::default(), Style::default(), vec![words("Foo!")]),
        "ThiFoo! the background text.\n"
    );
    let red = ViewProps {
        background_color: Some(Color::Red),
        ..ViewProps::default()
    };
    assert_eq!(
        over(red, sized(6.0, Some(1.0)), vec![]),
        "Thi      he background text.\n"
    );
    let opaque = ViewProps {
        opaque: true,
        ..ViewProps::default()
    };
    assert_eq!(
        over(opaque, sized(6.0, Some(1.0)), vec![]),
        "Thi      he background text.\n"
    );

    let props = titled(
        BorderStyle::Round,
        BorderText {
            content: "Title".to_string(),
            position: BorderTextPosition::Top,
            align: BorderTextAlign::Center,
            offset: 0,
        },
    );
    assert_eq!(
        shown(boxed(props, sized(16.0, None), vec![words("body")])),
        "╭────Title─────╮\n│body          │\n╰──────────────╯\n"
    );
    let props = titled(
        BorderStyle::Classic,
        BorderText {
            content: "ok".to_string(),
            position: BorderTextPosition::Bottom,
            align: BorderTextAlign::End,
            offset: 1,
        },
    );
    assert_eq!(
        shown(boxed(props, sized(12.0, None), vec![words("body")])),
        "+----------+\n|body      |\n+-------ok-+\n"
    );

    let gap = |column_gap: f32, row_gap: f32| Size {
        width: taffy::style::LengthPercentage::length(column_gap),
        height: taffy::style::LengthPercentage::length(row_gap),
    };
    assert_eq!(
        shown(boxed(
            bordered(BorderStyle::Single),
            Style {
                gap: gap(2.0, 0.0),
                ..sized(20.0, None)
            },
            vec![
                bare(sized(3.0, None), vec![words("foo")]),
                bare(sized(3.0, None), vec![words("bar")]),
            ]
        )),
        "┌──────────────────┐\n│foo  bar          │\n└──────────────────┘\n"
    );
    assert_eq!(
        shown(boxed(
            bordered(BorderStyle::Single),
            Style {
                gap: gap(0.0, 1.0),
                flex_direction: taffy::style::FlexDirection::Column,
                ..sized(20.0, None)
            },
            vec![words("foo"), words("bar"), words("baz")]
        )),
        "┌──────────────────┐\n\
         │foo               │\n\
         │                  │\n\
         │bar               │\n\
         │                  │\n\
         │baz               │\n\
         └──────────────────┘\n"
    );

    let overlay = |top: f32, content: &str| {
        shown(boxed(
            bordered(BorderStyle::Single),
            Style {
                margin: margins(0.0, 0.0, 1.0, 0.0),
                ..sized(20.0, Some(7.0))
            },
            vec![bare(
                Style {
                    position: taffy::style::Position::Absolute,
                    inset: inset(None, top),
                    ..sized(5.0, Some(3.0))
                },
                vec![words(content)],
            )],
        ))
    };
    let empty = "│                  │\n".repeat(5);
    assert_eq!(
        overlay(-2.0, "foo"),
        format!(" foo\n┌──────────────────┐\n{empty}└──────────────────┘\n")
    );
    assert_eq!(
        overlay(-3.0, "foo\nbar"),
        format!(" foo\n┌bar───────────────┐\n{empty}└──────────────────┘\n")
    );

    // A text wraps to what is left of the screen, and the box around it clips it.
    let mut clipping = boxed(
        bordered(BorderStyle::Single),
        sized(20.0, Some(7.0)),
        vec![bare(
            Style {
                position: taffy::style::Position::Absolute,
                inset: inset(Some(17.0), -1.0),
                ..Style::default()
            },
            vec![words("foo\nbar")],
        )],
    );
    clipping.clips = true;
    assert_eq!(
        shown(clipping),
        "┌──────────────────┐\n\
         │                 o│\n\
         │                 b│\n\
         │                 r│\n\
         │                  │\n\
         │                  │\n\
         └──────────────────┘\n"
    );
}

#[test]
fn test_view_zero_height_sibling_overlap_skips_hidden_tail_like_cc_ink() {
    let hidden = bare(
        Style {
            size: Size {
                width: taffy::style::Dimension::auto(),
                height: cells(0.0),
            },
            ..Style::default()
        },
        vec![words("false")],
    );
    assert_eq!(
        shown(bare(
            Style {
                flex_direction: taffy::style::FlexDirection::Column,
                ..sized(5.0, Some(1.0))
            },
            vec![hidden, words("true")]
        )),
        "true\n"
    );
}

#[test]
fn test_view_no_select_marks_metadata_without_output_changes() {
    let props = ViewProps {
        no_select: true,
        ..ViewProps::default()
    };
    let screen = render(bare(
        sized(4.0, None),
        vec![boxed(props, sized(2.0, None), vec![words("ab")]), words("cd")],
    ));
    assert_eq!(screen.shown(), "abcd\n");
    assert!(screen.is_no_select(0, 0));
    assert!(screen.is_no_select(1, 0));
    assert!(!screen.is_no_select(2, 0));
    assert!(!screen.is_no_select(3, 0));
}

#[test]
fn test_view_no_select_from_left_edge_marks_metadata_without_output_changes() {
    let props = ViewProps {
        no_select_from_left_edge: true,
        ..ViewProps::default()
    };
    let screen = render(bare(
        sized(6.0, None),
        vec![
            boxed(
                props,
                Style {
                    margin: margins(2.0, 0.0, 0.0, 0.0),
                    ..sized(2.0, None)
                },
                vec![words("xx")],
            ),
            words("yy"),
        ],
    ));
    assert_eq!(screen.shown(), "  xxyy\n");
    for x in 0..4 {
        assert!(screen.is_no_select(x, 0));
    }
    assert!(!screen.is_no_select(4, 0));
    assert!(!screen.is_no_select(5, 0));
}

#[test]
fn test_no_select_component_marks_child_region_without_output_changes() {
    let screen = render_element(NoSelect(NoSelectProps {
        children: vec![AnyElement::at(0, ElementNode::Text(text_props("gutter")))],
        from_left_edge: false,
    }));
    assert_eq!(screen.shown(), "gutter\n");
    for x in 0..6 {
        assert!(screen.is_no_select(x, 0));
    }
    assert!(!screen.is_no_select(6, 0));
}

#[test]
fn test_no_select_from_left_edge_marks_indent_through_right_edge() {
    let element = NoSelect(NoSelectProps {
        children: vec![AnyElement::at(0, ElementNode::Text(text_props("##")))],
        from_left_edge: true,
    });
    let screen = render(bare(
        Style {
            margin: margins(3.0, 0.0, 0.0, 0.0),
            ..Style::default()
        },
        nodes(element),
    ));
    assert_eq!(screen.shown(), "   ##\n");
    for x in 0..5 {
        assert!(screen.is_no_select(x, 0));
    }
    assert!(!screen.is_no_select(5, 0));
}

#[test]
fn test_newline_reserves_blank_rows() {
    let rows = Newline::new(&NewlineProps { count: 2 });
    assert_eq!(
        shown(bare(column(), vec![words("A"), blank(&rows.layout()), words("B")])),
        "A\n\n\nB\n"
    );
}

#[test]
fn test_newline_default_count_is_one() {
    let rows = Newline::new(&NewlineProps::default());
    assert_eq!(
        shown(bare(column(), vec![words("A"), blank(&rows.layout()), words("B")])),
        "A\n\nB\n"
    );
    assert_eq!(Newline::new(&NewlineProps { count: -4 }).count, 0);
    assert_eq!(Newline::new(&NewlineProps { count: 65_535 }).count, 65_535);
    assert_eq!(Newline::new(&NewlineProps { count: 65_536 }).count, 0);
    assert_eq!(Newline::new(&NewlineProps { count: 70_000 }).count, 4_464);
}

#[test]
fn test_spacer_expands_along_row_main_axis() {
    let spacer = Spacer::new(&SpacerProps);
    assert_eq!(
        shown(bare(
            sized(6.0, None),
            vec![words("A"), blank(&spacer.layout()), words("B")]
        )),
        "A    B\n"
    );
}

fn failing_line() -> ErrorLocation {
    ErrorLocation {
        file: "src/main.rs".to_string(),
        line: 3,
        column: Some(9),
    }
}

#[test]
fn test_error_overview_renders_badge_location_excerpt_and_stack() {
    let screen = render_element(ErrorOverview(
        &ErrorOverviewProps {
            message: "boom".to_string(),
            location: Some(failing_line()),
            source: Some("fn main() {\n    ok();\n    boom();\n    after();\n}\n".to_string()),
            stack: Some("panic at boom\ncalled from test".to_string()),
        },
        &None,
        &None,
    ));
    let output = screen.shown();
    assert!(output.contains("ERROR  boom"));
    assert!(output.contains("src/main.rs:3:9"));
    assert!(output.contains("3:     boom();"));
    assert!(output.contains("- panic at boom"));
    assert!(screen.rows.iter().any(|row| row.iter().any(|cell| {
        cell.text == "3"
            && cell.background == Some(Color::Red)
            && cell.style.is_some_and(|style| style.color == Some(Color::White))
    })));
}

#[test]
fn test_error_overview_omits_unavailable_optional_sections() {
    let screen = render_element(ErrorOverview(
        &ErrorOverviewProps {
            message: "only message".to_string(),
            ..ErrorOverviewProps::default()
        },
        &None,
        &None,
    ));
    assert_eq!(screen.shown(), "\n  ERROR  only message\n\n");
}

/// What is shown instead of elements that panicked.
fn boundary_fallback() -> AnyElement {
    ErrorBoundary::new()
        .update(
            &Some(PanicPayload::Message("boom".to_string())),
            Some(CapturedPanic {
                message: "boom".to_string(),
                location: Some(ErrorLocation {
                    file: "error_boundary.rs".to_string(),
                    line: 170,
                    column: Some(13),
                }),
            }),
        )
        .unwrap()
}

#[test]
fn test_error_boundary_catches_child_panic() {
    let output = render_element(boundary_fallback()).shown();
    assert!(output.contains("ERROR  boom"));
    assert!(output.contains("error_boundary.rs:"));
}

#[test]
fn test_error_boundary_isolates_from_siblings() {
    let mut children = nodes(boundary_fallback());
    children.push(words("still here"));
    let output = shown(bare(column(), children));
    assert!(output.contains("ERROR  boom"));
    assert!(output.contains("still here"));
}

#[test]
fn an_overview_is_laid_out_in_full() {
    let screen = render_element(ErrorOverview(
        &ErrorOverviewProps {
            message: "boom".to_string(),
            location: Some(ErrorLocation {
                file: "file:///work/lib.rs".to_string(),
                line: 10,
                column: None,
            }),
            source: None,
            stack: Some("one\n\n  \ntwo".to_string()),
        },
        &Some("lib.rs".to_string()),
        &Some((1..=30).map(|line| format!("line {line}\r\n")).collect()),
    ));
    assert_eq!(
        screen.shown(),
        "\n  ERROR  boom\n\n lib.rs:10\n\n  8: line 8\n  9: line 9\n 10: line 10\n 11: line 11\n\
         \x20\x31\x32: line 12\n\n - one\n - two\n\n"
    );
}

#[test]
fn places_and_lines_are_shown() {
    assert_eq!(strip_file_scheme("file:///a/b.rs"), "/a/b.rs");
    assert_eq!(strip_file_scheme("/a/b.rs"), "/a/b.rs");
    assert_eq!(format_location("b.rs", &failing_line()), "b.rs:3:9");
    assert_eq!(text_lines("a\r\nb\n\nc"), vec!["a", "b", "", "c"]);
    let start = ErrorLocation { line: 0, ..failing_line() };
    assert!(build_excerpt(&Some(start), &Some("a\nb".to_string())).is_empty());
    let excerpt = build_excerpt(&Some(failing_line()), &Some("a\nb\nc".to_string()));
    let lines: Vec<usize> = excerpt.iter().map(|line| line.line).collect();
    assert_eq!(lines, vec![1, 2, 3]);
}

#[test]
fn a_notification_is_a_row_after_its_prefix() {
    let props = NotificationViewportProps {
        prefix: Some("! ".to_string()),
        color: None,
    };
    let current = Some(Notification {
        text: "saved".to_string(),
        color: None,
    });
    let screen = render_element(NotificationViewport(&current, &props));
    assert_eq!(screen.shown(), "! saved\n");
    assert_eq!(screen.style(0, 0).color, Some(Color::Grey));
    assert!(screen.is_no_select(0, 0));
    assert_eq!(render_element(NotificationViewport(&None, &props)).shown(), "");
}

#[test]
fn a_border_line_keeps_its_corners_and_its_width() {
    let cases = [
        (BorderTextAlign::Start, "┌─", "───┐"),
        (BorderTextAlign::Center, "┌──", "──┐"),
        (BorderTextAlign::End, "┌───", "─┐"),
    ];
    for (align, before, after) in cases {
        let line = embedded_border_line_segments("┌──────┐", "\x1b[31mok\x1b[0m", align, 1, '─');
        assert_eq!((line.before.as_str(), line.after.as_str()), (before, after));
        assert_eq!(line.content, "\x1b[31mok\x1b[0m");
        assert_eq!(before.chars().count() + 2 + after.chars().count(), 8);
    }
}

#[test]
fn a_border_text_that_does_not_fit_is_not_drawn() {
    assert!(border_text_fits("┌──────┐", "ok", BorderTextAlign::End, 5));
    assert!(!border_text_fits("┌──────┐", "ok", BorderTextAlign::End, 6));
    assert!(border_text_fits("┌──┐", "ok", BorderTextAlign::End, 6), "it takes all of the line");
    let mut view = View::new(ViewId(7));
    view.update_style(&titled(
        BorderStyle::Single,
        BorderText {
            content: "ok".to_string(),
            position: BorderTextPosition::Top,
            align: BorderTextAlign::End,
            offset: 9,
        },
    ));
    assert!(view.try_draw(0, 0, 8, 3, false).is_none());
    assert!(view.try_draw(0, 0, 20, 3, false).is_some());
}

#[test]
fn test_fragment() {
    let fragment = AnyElement::at(
        0,
        ElementNode::Fragment(FragmentProps {
            children: vec![
                AnyElement::at(0, ElementNode::Text(text_props("Line 1"))),
                AnyElement::at(0, ElementNode::Text(text_props("Line 2"))),
            ],
        }),
    );
    let column = LayoutStyle {
        flex_direction: FlexDirection::Column,
        ..LayoutStyle::default()
    };
    let view = AnyElement::at(0, ElementNode::View(ViewProps::bare(column, vec![fragment])));
    assert_eq!(render_element(view).shown(), "Line 1\nLine 2\n");
}

#[test]
fn border_characters_are_null_by_default() {
    let characters = BorderCharacters::default();
    assert_eq!(characters.top_left, '\0');
    assert_eq!(BorderStyle::Custom(characters).border_characters(), Some(characters));
}
