//! A part of the tree in which a panic is shown instead of what panicked.

use crate::element::{AnyElement, ElementNode};
use crate::error_overview::{ErrorLocation, ErrorOverviewProps};
use vstd::prelude::*;

verus! {

/// The props of [`ErrorBoundary`].
#[derive(Debug)]
pub struct ErrorBoundaryProps {
    /// The elements that may panic.
    pub children: Vec<AnyElement>,
}

/// What a panic carries.
#[derive(Debug)]
pub enum PanicPayload {
    /// A text.
    Message(String),
    /// Something else.
    Unknown,
}

/// The message of a panic.
pub open spec fn message_of(payload: PanicPayload) -> Seq<char> {
    match payload {
        PanicPayload::Message(message) => message@,
        PanicPayload::Unknown => "unknown panic"@,
    }
}

/// The message of a panic.
pub fn panic_payload_message(payload: &PanicPayload) -> (message: String)
    ensures
        message@ == message_of(*payload),
{
    match payload {
        PanicPayload::Message(message) => message.clone(),
        PanicPayload::Unknown => "unknown panic".to_owned(),
    }
}

/// A panic as the panic hook saw it.
#[derive(Debug)]
pub struct CapturedPanic {
    /// The message of the panic.
    pub message: String,
    /// Where the panic happened.
    pub location: Option<ErrorLocation>,
}

/// What is known of a panic: its message, and the file, line and column where it happened.
pub struct PanicModel {
    pub message: Seq<char>,
    pub location: Option<(Seq<char>, usize, Option<usize>)>,
}

/// A place as plain values.
pub open spec fn place_of(location: Option<ErrorLocation>) -> Option<
    (Seq<char>, usize, Option<usize>),
> {
    match location {
        Some(location) => Some((location.file@, location.line, location.column)),
        None => None,
    }
}

impl View for CapturedPanic {
    type V = PanicModel;

    open spec fn view(&self) -> PanicModel {
        PanicModel { message: self.message@, location: place_of(self.location) }
    }
}

/// What is shown after an update of the children that may have panicked: the first panic
/// there was, as the panic hook saw it where it did.
pub open spec fn shown_after(
    shown: Option<PanicModel>,
    panicked: Option<PanicPayload>,
    captured: Option<CapturedPanic>,
) -> Option<PanicModel> {
    if shown is Some || panicked is None {
        shown
    } else {
        Some(
            match captured {
                Some(captured) => captured@,
                None => PanicModel { message: message_of(panicked->0), location: None },
            },
        )
    }
}

/// A part of the tree that may panic.
#[derive(Debug)]
pub struct ErrorBoundary {
    error: Option<CapturedPanic>,
}

impl ErrorBoundary {
    /// The panic that is shown instead of the children.
    pub closed spec fn shown(self) -> Option<PanicModel> {
        match self.error {
            Some(error) => Some(error@),
            None => None,
        }
    }

    /// A part of the tree that has not panicked.
    pub fn new() -> (r: Self)
        ensures
            r.shown() is None,
    {
        ErrorBoundary { error: None }
    }

    /// Whether the children are updated: not once they have panicked.
    pub fn updates_children(&self) -> (r: bool)
        ensures
            r == (self.shown() is None),
    {
        self.error.is_none()
    }

    /// Updates the boundary after its children were updated: `panicked` is what a panic carried,
    /// `captured` is what the panic hook saw of it. Returns what is shown instead of the
    /// children: an overview of the panic.
    pub fn update(
        &mut self,
        panicked: &Option<PanicPayload>,
        captured: Option<CapturedPanic>,
    ) -> (fallback: Option<AnyElement>)
        ensures
            final(self).shown() == shown_after(old(self).shown(), *panicked, captured),
            fallback is Some == final(self).shown() is Some,
            fallback matches Some(element) ==> {
                let overview = element.node->ErrorOverview_0;
                let shown = final(self).shown()->0;
                &&& element.key.value == 0
                &&& element.node is ErrorOverview
                &&& overview.message@ == shown.message
                &&& place_of(overview.location) == shown.location
                &&& overview.stack is None
                &&& overview.source is None
            },
    {
        if self.error.is_none() {
            if let Some(payload) = panicked {
                self.error = match captured {
                    Some(captured) => Some(captured),
                    None => Some(
                        CapturedPanic { message: panic_payload_message(payload), location: None },
                    ),
                };
            }
        }
        match &self.error {
            Some(error) => {
                let location = match &error.location {
                    Some(location) => Some(
                        ErrorLocation {
                            file: location.file.clone(),
                            line: location.line,
                            column: location.column,
                        },
                    ),
                    None => None,
                };
                Some(
                    AnyElement::at(
                        0,
                        ElementNode::ErrorOverview(
                            ErrorOverviewProps {
                                message: error.message.clone(),
                                location,
                                stack: None,
                                source: None,
                            },
                        ),
                    ),
                )
            },
            None => None,
        }
    }
}

/// What is shown after a row of updates, each with what it carried and what the panic hook
/// saw.
pub open spec fn shown_after_all(
    shown: Option<PanicModel>,
    updates: Seq<(Option<PanicPayload>, Option<CapturedPanic>)>,
) -> Option<PanicModel>
    decreases updates.len(),
{
    if updates.len() == 0 {
        shown
    } else {
        shown_after(
            shown_after_all(shown, updates.drop_last()),
            updates.last().0,
            updates.last().1,
        )
    }
}

/// A part of the tree that has panicked does not recover: whatever comes after, the first
/// panic is shown.
pub proof fn lemma_boundary_does_not_recover(
    shown: Option<PanicModel>,
    updates: Seq<(Option<PanicPayload>, Option<CapturedPanic>)>,
)
    requires
        shown is Some,
    ensures
        shown_after_all(shown, updates) == shown,
    decreases updates.len(),
{
    if updates.len() > 0 {
        lemma_boundary_does_not_recover(shown, updates.drop_last());
    }
}

/// The first panic is shown, as the panic hook saw it where it did, and otherwise with its
/// message alone; without a panic nothing changes.
pub proof fn lemma_first_panic_is_shown(
    shown: Option<PanicModel>,
    payload: PanicPayload,
    captured: Option<CapturedPanic>,
)
    ensures
        shown_after(shown, None, captured) == shown,
        shown is Some ==> shown_after(shown, Some(payload), captured) == shown,
        shown is None ==> {
            let now = shown_after(shown, Some(payload), captured);
            &&& now is Some
            &&& captured matches Some(seen) ==> now->0.message == seen.message@
                && now->0.location == place_of(seen.location)
            &&& captured is None ==> now->0.location is None
            &&& captured is None && payload is Unknown ==> now->0.message == "unknown panic"@
            &&& captured is None ==> (payload matches PanicPayload::Message(message)
                ==> now->0.message == message@)
        },
{
}

} // verus!
