//! A hyperlink.

use crate::element::{AnyElement, ElementNode};
use crate::text::TextProps;
use vstd::prelude::*;

verus! {

/// The props of [`Link`].
#[derive(Debug)]
pub struct LinkProps {
    /// The target of the link.
    pub url: String,
    /// What is shown; the target by default.
    pub label: Option<String>,
    /// What is shown where the terminal has no links; the label by default.
    pub fallback: Option<String>,
    /// Whether the link is one, whatever the terminal has.
    pub enabled: Option<bool>,
}

impl Default for LinkProps {
    fn default() -> (r: Self)
        ensures
            r.url@.len() == 0,
            r.label is None,
            r.fallback is None,
            r.enabled is None,
    {
        LinkProps { url: String::new(), label: None, fallback: None, enabled: None }
    }
}

/// Renders a link, or its fallback. `supports_hyperlinks` says whether the terminal has
/// links.
#[allow(non_snake_case)]
pub fn Link(props: &LinkProps, supports_hyperlinks: bool) -> (element: AnyElement)
    ensures
        element.key.value == 0,
        element.node is Text,
        ({
            let text = element.node->Text_0;
            let enabled = match props.enabled {
                Some(enabled) => enabled,
                None => supports_hyperlinks,
            };
            let label = match props.label {
                Some(label) => label@,
                None => props.url@,
            };
            let linked = enabled && props.url@.len() > 0;
            &&& crate::text::is_plain_text(TextProps { href: None, ..text })
            &&& crate::strings::opt_text(text.href) == if linked {
                Some(props.url@)
            } else {
                None
            }
            &&& text.content@ == if linked {
                label
            } else {
                match props.fallback {
                    Some(fallback) => fallback@,
                    None => label,
                }
            }
        }),
        ({
            let text = element.node->Text_0;
            let off = props.enabled == Some(false) || (props.enabled is None
                && !supports_hyperlinks);
            &&& text.href is Some <==> !off && props.url@.len() > 0
            &&& text.href matches Some(url) ==> url@ == props.url@
            &&& text.href is Some ==> (props.label matches Some(label) ==> text.content@
                == label@)
            &&& text.href is Some && props.label is None ==> text.content@ == props.url@
            &&& text.href is None ==> (props.fallback matches Some(fallback) ==> text.content@
                == fallback@)
            &&& text.href is None && props.fallback is None ==> (props.label matches Some(label)
                ==> text.content@ == label@)
        }),
{
    let label: String = match &props.label {
        Some(label) => label.clone(),
        None => props.url.clone(),
    };
    let enabled: bool = match props.enabled {
        Some(enabled) => enabled,
        None => supports_hyperlinks,
    };
    let plain = TextProps::default();
    let text = if enabled && !props.url.as_str().is_empty() {
        TextProps { content: label, href: Some(props.url.clone()), ..plain }
    } else {
        let content: String = match &props.fallback {
            Some(fallback) => fallback.clone(),
            None => label,
        };
        TextProps { content, ..plain }
    };
    AnyElement::at(0, ElementNode::Text(text))
}

} // verus!
