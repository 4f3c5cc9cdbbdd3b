//! Text with escape sequences, rendered as mixed text.

use crate::element::{AnyElement, ElementNode};
use crate::mixed_text::{MixedTextContent, MixedTextProps};
use crate::raw_ansi::{parse_ansi, AnsiRun};
use crate::strings::clone_text;
use crate::style::{Color, Weight};
use crate::text::{TextAlign, TextDecoration};
use crate::text_wrap::TextWrap;
use vstd::prelude::*;

verus! {

use crate::raw_ansi::RunModel;

/// The props of [`Ansi`].
#[derive(Debug)]
pub struct AnsiProps {
    /// The text, with escape sequences.
    pub content: String,
    /// Whether all of the text is dim.
    pub dim_color: bool,
    /// The color of text that has none of its own.
    pub color: Option<Color>,
    /// The wrapping behavior.
    pub wrap: TextWrap,
    /// The alignment.
    pub align: TextAlign,
}

impl Default for AnsiProps {
    fn default() -> (r: Self)
        ensures
            r.content@.len() == 0,
            !r.dim_color,
            r.color is None,
            r.wrap == TextWrap::Wrap,
            r.align == TextAlign::Left,
    {
        AnsiProps {
            content: String::new(),
            dim_color: false,
            color: None,
            wrap: TextWrap::Wrap,
            align: TextAlign::Left,
        }
    }
}

/// The section for a run: it looks like the run, but for the color and the weight that the
/// props ask for.
pub open spec fn is_section(content: MixedTextContent, run: RunModel, props: AnsiProps) -> bool {
    &&& content.text@ == run.text
    &&& content.color == if run.style.color is Some {
        run.style.color
    } else {
        props.color
    }
    &&& content.background_color == run.background_color
    &&& content.weight == if props.dim_color {
        Weight::Light
    } else {
        run.style.weight
    }
    &&& content.decoration == if run.style.underline {
        TextDecoration::Underline
    } else {
        TextDecoration::Plain
    }
    &&& content.italic == run.style.italic
    &&& content.strikethrough == run.style.strikethrough
    &&& content.overline == run.style.overline
    &&& content.invert == run.style.invert
    &&& crate::strings::opt_text(content.href) == run.hyperlink
}

/// The section for a run.
fn make_section(run: &AnsiRun, props: &AnsiProps) -> (content: MixedTextContent)
    ensures
        is_section(content, run@, *props),
{
    MixedTextContent {
        text: run.text.clone(),
        color: if run.style.color.is_some() {
            run.style.color
        } else {
            props.color
        },
        background_color: run.background_color,
        weight: if props.dim_color {
            Weight::Light
        } else {
            run.style.weight
        },
        decoration: if run.style.underline {
            TextDecoration::Underline
        } else {
            TextDecoration::Plain
        },
        italic: run.style.italic,
        strikethrough: run.style.strikethrough,
        overline: run.style.overline,
        invert: run.style.invert,
        href: clone_text(&run.hyperlink),
    }
}

/// Renders a text with escape sequences: one section for each run.
#[allow(non_snake_case)]
pub fn Ansi(props: &AnsiProps) -> (element: AnyElement)
    ensures
        element.key.value == 0,
        element.node is MixedText,
        element.node->MixedText_0.wrap == props.wrap,
        element.node->MixedText_0.align == props.align,
        ({
            let runs = crate::raw_ansi::ansi_runs(props.content@, false);
            let contents = element.node->MixedText_0.contents@;
            &&& contents.len() == runs.len()
            &&& forall|i: int|
                0 <= i < runs.len() ==> is_section(#[trigger] contents[i], runs[i], *props)
        }),
{
    let runs = parse_ansi(props.content.as_str());
    let ghost models = crate::raw_ansi::run_models(runs@);
    let mut contents: Vec<MixedTextContent> = Vec::new();
    let mut i: usize = 0;
    while i < runs.len()
        invariant
            i <= runs@.len(),
            contents@.len() == i,
            models == crate::raw_ansi::run_models(runs@),
            forall|k: int| 0 <= k < i ==> is_section(#[trigger] contents@[k], models[k], *props),
        decreases runs@.len() - i,
    {
        assert(models[i as int] == runs@[i as int]@);
        contents.push(make_section(&runs[i], props));
        i = i + 1;
    }
    AnyElement::at(
        0,
        ElementNode::MixedText(
            MixedTextProps { contents, wrap: props.wrap, align: props.align },
        ),
    )
}

/// A run keeps its look as a section. Its own color goes before that of the props, and dim text
/// is light whatever its own weight is.
pub proof fn lemma_run_keeps_its_look(content: MixedTextContent, run: RunModel, props: AnsiProps)
    requires
        is_section(content, run, props),
    ensures
        content.text@ == run.text,
        run.style.color is Some ==> content.color == run.style.color,
        run.style.color is None ==> content.color == props.color,
        props.dim_color ==> content.weight == Weight::Light,
        !props.dim_color ==> content.weight == run.style.weight,
        (content.decoration == TextDecoration::Underline) == run.style.underline,
        content.italic == run.style.italic,
        content.strikethrough == run.style.strikethrough,
        content.overline == run.style.overline,
        content.invert == run.style.invert,
        content.background_color == run.background_color,
        crate::strings::opt_text(content.href) == run.hyperlink,
{
}

} // verus!
