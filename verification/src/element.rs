//! The tree of elements that components render.

use crate::context::ContextValue;
use crate::error_overview::ErrorOverviewProps;
use crate::mixed_text::{MixedText, MixedTextProps};
use crate::raw_ansi_line::{RawAnsi, RawAnsiProps};
use crate::scroll_box::ScrollBoxProps;
use crate::scroll_view::{
    ScrollViewContentMeasurerProps, ScrollViewProps, ScrollViewScrollbarProps,
};
use crate::style::LayoutStyle;
use crate::text::{Text, TextProps};
use crate::view_props::ViewProps;
use vstd::prelude::*;

verus! {

/// Tells an element from its siblings.
#[derive(Clone, Copy, Debug, PartialEq, Eq, Hash, Structural)]
pub struct ElementKey {
    /// The value of the key.
    pub value: u64,
}

impl ElementKey {
    /// A key with the given value.
    pub fn new(key: u64) -> (r: Self)
        ensures
            r.value == key,
    {
        ElementKey { value: key }
    }
}

/// The props of a [`Fragment`].
#[derive(Debug)]
pub struct FragmentProps {
    /// The elements of the fragment.
    pub children: Vec<AnyElement>,
}

/// A group of elements without a box of its own.
#[derive(Debug)]
pub struct Fragment;

/// The props of a [`ContextProvider`].
#[derive(Debug)]
pub struct ContextProviderProps {
    /// The elements that see the value.
    pub children: Vec<AnyElement>,
    /// The value.
    pub value: Option<ContextValue>,
}

/// A component that hands a value down to the components inside of it.
#[derive(Debug)]
pub struct ContextProvider;

/// A component with its props.
#[derive(Debug)]
pub enum ElementNode {
    View(ViewProps),
    Text(TextProps),
    MixedText(MixedTextProps),
    RawAnsi(RawAnsiProps),
    Fragment(FragmentProps),
    ContextProvider(ContextProviderProps),
    ScrollView(ScrollViewProps),
    ScrollBox(ScrollBoxProps),
    ContentMeasurer(ScrollViewContentMeasurerProps),
    Scrollbar(ScrollViewScrollbarProps),
    ErrorOverview(ErrorOverviewProps),
}

/// An element of any type.
#[derive(Debug)]
pub struct AnyElement {
    /// The key of the element.
    pub key: ElementKey,
    /// The component with its props.
    pub node: ElementNode,
}

impl AnyElement {
    /// The element at a place among its siblings that has no other key.
    pub fn at(place: u64, node: ElementNode) -> (r: Self)
        ensures
            r.key.value == place,
            r.node == node,
    {
        AnyElement { key: ElementKey::new(place), node }
    }

    /// An element at a place that is a view with nothing but a layout and children.
    pub open spec fn is_view_at(
        self,
        place: int,
        layout: LayoutStyle,
        children: Seq<AnyElement>,
    ) -> bool {
        &&& self.key.value == place
        &&& self.node is View
        &&& self.node->View_0.layout == layout
        &&& self.node->View_0.is_bare()
        &&& self.node->View_0.children@ == children
    }
}

/// A type of component: how its props become an element.
pub trait ElementType {
    /// The props of the component.
    type Props;

    /// The component with its props.
    spec fn node(props: Self::Props) -> ElementNode;

    /// The component with its props.
    fn into_node(props: Self::Props) -> (r: ElementNode)
        ensures
            r == Self::node(props),
    ;
}

impl ElementType for crate::view::View {
    type Props = ViewProps;

    open spec fn node(props: ViewProps) -> ElementNode {
        ElementNode::View(props)
    }

    fn into_node(props: ViewProps) -> (r: ElementNode) {
        ElementNode::View(props)
    }
}

impl ElementType for Text {
    type Props = TextProps;

    open spec fn node(props: TextProps) -> ElementNode {
        ElementNode::Text(props)
    }

    fn into_node(props: TextProps) -> (r: ElementNode) {
        ElementNode::Text(props)
    }
}

impl ElementType for MixedText {
    type Props = MixedTextProps;

    open spec fn node(props: MixedTextProps) -> ElementNode {
        ElementNode::MixedText(props)
    }

    fn into_node(props: MixedTextProps) -> (r: ElementNode) {
        ElementNode::MixedText(props)
    }
}

impl ElementType for RawAnsi {
    type Props = RawAnsiProps;

    open spec fn node(props: RawAnsiProps) -> ElementNode {
        ElementNode::RawAnsi(props)
    }

    fn into_node(props: RawAnsiProps) -> (r: ElementNode) {
        ElementNode::RawAnsi(props)
    }
}

impl ElementType for Fragment {
    type Props = FragmentProps;

    open spec fn node(props: FragmentProps) -> ElementNode {
        ElementNode::Fragment(props)
    }

    fn into_node(props: FragmentProps) -> (r: ElementNode) {
        ElementNode::Fragment(props)
    }
}

impl ElementType for ContextProvider {
    type Props = ContextProviderProps;

    open spec fn node(props: ContextProviderProps) -> ElementNode {
        ElementNode::ContextProvider(props)
    }

    fn into_node(props: ContextProviderProps) -> (r: ElementNode) {
        ElementNode::ContextProvider(props)
    }
}

/// An element of a known type.
pub struct Element<T: ElementType> {
    /// The key of the element.
    pub key: ElementKey,
    /// The props of the component.
    pub props: T::Props,
}

impl<T: ElementType> Element<T> {
    /// The element as one of any type.
    pub fn into_any(self) -> (r: AnyElement)
        ensures
            r.key == self.key,
            r.node == T::node(self.props),
    {
        AnyElement { key: self.key, node: T::into_node(self.props) }
    }
}

/// What can be rendered: an element of a known type, or of any type.
pub trait Sealed {

}

impl Sealed for AnyElement {

}

impl<T: ElementType> Sealed for Element<T> {

}

/// What can be added to the children of an element.
pub trait ExtendWithElements: Sized {
    /// The elements that are added.
    spec fn elements(self) -> Seq<AnyElement>;

    /// Adds the elements.
    fn extend_with_elements(self, dest: &mut Vec<AnyElement>)
        ensures
            final(dest)@ == old(dest)@ + self.elements(),
    ;
}

impl<T: ElementType> ExtendWithElements for Element<T> {
    open spec fn elements(self) -> Seq<AnyElement> {
        seq![AnyElement { key: self.key, node: T::node(self.props) }]
    }

    fn extend_with_elements(self, dest: &mut Vec<AnyElement>) {
        dest.push(self.into_any());
        assert(dest@ =~= old(dest)@ + self.elements());
    }
}

impl ExtendWithElements for AnyElement {
    open spec fn elements(self) -> Seq<AnyElement> {
        seq![self]
    }

    fn extend_with_elements(self, dest: &mut Vec<AnyElement>) {
        dest.push(self);
        assert(dest@ =~= old(dest)@ + self.elements());
    }
}

impl ExtendWithElements for Vec<AnyElement> {
    open spec fn elements(self) -> Seq<AnyElement> {
        self@
    }

    fn extend_with_elements(self, dest: &mut Vec<AnyElement>) {
        let mut elements = self;
        dest.append(&mut elements);
    }
}

impl ExtendWithElements for Option<AnyElement> {
    open spec fn elements(self) -> Seq<AnyElement> {
        match self {
            Some(element) => seq![element],
            None => Seq::empty(),
        }
    }

    fn extend_with_elements(self, dest: &mut Vec<AnyElement>) {
        if let Some(element) = self {
            dest.push(element);
        }
        assert(dest@ =~= old(dest)@ + self.elements());
    }
}

/// Adds elements to the children of an element.
pub fn extend_with_elements<U: ExtendWithElements>(dest: &mut Vec<AnyElement>, elements: U)
    ensures
        final(dest)@ == old(dest)@ + elements.elements(),
{
    elements.extend_with_elements(dest);
}

/// The screen that an element was rendered to.
#[derive(Clone, Copy, Debug, PartialEq, Eq, Structural)]
pub struct RenderedScreen {
    /// The columns of the canvas.
    pub canvas_width: usize,
    /// The rows of the canvas.
    pub canvas_height: usize,
    /// The height of the element.
    pub height: usize,
}

/// The screen for an element that was rendered into `width` columns to a canvas of the
/// given size: an element without height still has a canvas of one row.
pub fn render_to_screen(width: usize, rendered_width: usize, rendered_height: usize) -> (screen:
    RenderedScreen)
    ensures
        screen.height == rendered_height,
        screen.canvas_height == crate::math::max_int(rendered_height as int, 1),
        screen.canvas_width == if rendered_height == 0 {
            width
        } else {
            rendered_width
        },
{
    if rendered_height == 0 {
        RenderedScreen { canvas_width: width, canvas_height: 1, height: 0 }
    } else {
        RenderedScreen {
            canvas_width: rendered_width,
            canvas_height: rendered_height,
            height: rendered_height,
        }
    }
}

/// The stream that rendered output goes to.
#[derive(Clone, Copy, Debug, PartialEq, Eq, Structural)]
pub enum Output {
    Stdout,
    Stderr,
}

impl Default for Output {
    fn default() -> (r: Self)
        ensures
            r == Output::Stdout,
    {
        Output::Stdout
    }
}

} // verus!
