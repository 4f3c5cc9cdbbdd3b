//! Values that components hand down to the components inside of them.

use crate::view_context::ViewFocusParentContext;
use vstd::prelude::*;

verus! {

/// The features of the keyboard that an application asks the terminal for, one bit
/// each.
#[derive(Clone, Copy, Debug, PartialEq, Eq, Structural)]
pub struct KeyboardEnhancementFlags {
    pub bits: u8,
}

/// What components ask of the system.
#[derive(Debug)]
pub struct SystemContext {
    should_exit: bool,
    mouse_capture: Option<bool>,
    keyboard_enhancement_flags: Option<KeyboardEnhancementFlags>,
    terminal_title: Option<String>,
}

/// What a [`SystemContext`] holds.
pub struct SystemModel {
    pub should_exit: bool,
    pub mouse_capture: Option<bool>,
    pub keyboard_enhancement_flags: Option<KeyboardEnhancementFlags>,
    pub terminal_title: Option<Seq<char>>,
}

impl View for SystemContext {
    type V = SystemModel;

    closed spec fn view(&self) -> SystemModel {
        SystemModel {
            should_exit: self.should_exit,
            mouse_capture: self.mouse_capture,
            keyboard_enhancement_flags: self.keyboard_enhancement_flags,
            terminal_title: crate::strings::opt_text(self.terminal_title),
        }
    }
}

impl SystemContext {
    /// Nothing asked.
    pub fn new() -> (r: Self)
        ensures
            r@ == (SystemModel {
                should_exit: false,
                mouse_capture: None,
                keyboard_enhancement_flags: None,
                terminal_title: None,
            }),
    {
        SystemContext {
            should_exit: false,
            mouse_capture: None,
            keyboard_enhancement_flags: None,
            terminal_title: None,
        }
    }

    /// Asks the render loop to end.
    pub fn exit(&mut self)
        ensures
            final(self)@ == (SystemModel { should_exit: true, ..old(self)@ }),
    {
        self.should_exit = true;
    }

    /// Whether the render loop is to end.
    pub fn should_exit(&self) -> (r: bool)
        ensures
            r == self@.should_exit,
    {
        self.should_exit
    }

    /// Asks for the mouse to be captured, or not to be.
    pub fn set_mouse_capture(&mut self, enabled: bool)
        ensures
            final(self)@ == (SystemModel { mouse_capture: Some(enabled), ..old(self)@ }),
    {
        self.mouse_capture = Some(enabled);
    }

    /// Whether the mouse is to be captured, if that was asked.
    pub fn mouse_capture(&self) -> (r: Option<bool>)
        ensures
            r == self@.mouse_capture,
    {
        self.mouse_capture
    }

    /// Asks for features of the keyboard.
    pub fn set_keyboard_enhancement_flags(&mut self, flags: KeyboardEnhancementFlags)
        ensures
            final(self)@ == (SystemModel {
                keyboard_enhancement_flags: Some(flags),
                ..old(self)@
            }),
    {
        self.keyboard_enhancement_flags = Some(flags);
    }

    /// The features of the keyboard that were asked for.
    pub fn keyboard_enhancement_flags(&self) -> (r: Option<KeyboardEnhancementFlags>)
        ensures
            r == self@.keyboard_enhancement_flags,
    {
        self.keyboard_enhancement_flags
    }

    /// Asks for a title of the terminal.
    pub fn set_terminal_title(&mut self, title: &str)
        ensures
            final(self)@ == (SystemModel { terminal_title: Some(title@), ..old(self)@ }),
    {
        self.terminal_title = Some(title.to_owned());
    }

    /// The title of the terminal that was asked for.
    pub fn terminal_title(&self) -> (r: Option<&str>)
        ensures
            r is Some == self@.terminal_title is Some,
            r matches Some(title) ==> title@ == self@.terminal_title->0,
    {
        match &self.terminal_title {
            Some(title) => Some(title.as_str()),
            None => None,
        }
    }
}

/// The type of a context value.
#[derive(Clone, Copy, Debug, PartialEq, Eq, Structural)]
pub enum ContextType {
    Text,
    Number,
    /// The type of the application with this number.
    Application(u64),
    System,
    ViewParent,
    Focus,
    Keybindings,
    Notifications,
    InVirtualList,
}

/// A value that a context can hold. A context that is kept elsewhere is named by a
/// number.
#[derive(Debug)]
pub enum ContextValue {
    /// A text of the application.
    Text(String),
    /// A number of the application.
    Number(u64),
    /// A value of a type of the application; both are named by numbers.
    Application {
        /// The number of the type.
        type_number: u64,
        /// The number of the value.
        value: u64,
    },
    /// What components ask of the system.
    System(SystemContext),
    /// What a view knows of the views around it.
    ViewParent(ViewFocusParentContext),
    /// A focus context.
    Focus(u64),
    /// A set of key bindings.
    Keybindings(u64),
    /// A queue of notifications.
    Notifications(u64),
    /// The component is inside of a virtual list.
    InVirtualList,
}

impl ContextValue {
    /// The type of the value.
    pub open spec fn type_of(self) -> ContextType {
        match self {
            ContextValue::Text(_) => ContextType::Text,
            ContextValue::Number(_) => ContextType::Number,
            ContextValue::Application { type_number, value: _ } => ContextType::Application(
                type_number,
            ),
            ContextValue::System(_) => ContextType::System,
            ContextValue::ViewParent(_) => ContextType::ViewParent,
            ContextValue::Focus(_) => ContextType::Focus,
            ContextValue::Keybindings(_) => ContextType::Keybindings,
            ContextValue::Notifications(_) => ContextType::Notifications,
            ContextValue::InVirtualList => ContextType::InVirtualList,
        }
    }

    /// The type of the value.
    pub fn type_id(&self) -> (r: ContextType)
        ensures
            r == self.type_of(),
    {
        match self {
            ContextValue::Text(_) => ContextType::Text,
            ContextValue::Number(_) => ContextType::Number,
            ContextValue::Application { type_number, value: _ } => ContextType::Application(
                *type_number,
            ),
            ContextValue::System(_) => ContextType::System,
            ContextValue::ViewParent(_) => ContextType::ViewParent,
            ContextValue::Focus(_) => ContextType::Focus,
            ContextValue::Keybindings(_) => ContextType::Keybindings,
            ContextValue::Notifications(_) => ContextType::Notifications,
            ContextValue::InVirtualList => ContextType::InVirtualList,
        }
    }
}

/// A context: a value that is lent for writing, lent for reading, or owned.
#[derive(Debug)]
pub enum Context<'a> {
    /// Lent for writing.
    Mut(&'a mut ContextValue),
    /// Lent for reading.
    Ref(&'a ContextValue),
    /// Owned.
    Owned(ContextValue),
}

impl<'a> Context<'a> {
    /// The value.
    pub open spec fn value(self) -> ContextValue {
        match self {
            Context::Mut(value) => *value,
            Context::Ref(value) => *value,
            Context::Owned(value) => value,
        }
    }

    /// A context that owns its value.
    pub fn owned(context: ContextValue) -> (r: Self)
        ensures
            r is Owned,
            r.value() == context,
    {
        Context::Owned(context)
    }

    /// A context that may write to its value.
    pub fn from_mut(context: &'a mut ContextValue) -> (r: Self)
        ensures
            r is Mut,
            r.value() == *old(context),
            *final(r->Mut_0) == *final(context),
    {
        Context::Mut(context)
    }

    /// A context that may only read its value.
    pub fn from_ref(context: &'a ContextValue) -> (r: Self)
        ensures
            r is Ref,
            r.value() == *context,
    {
        Context::Ref(context)
    }

    /// The type of the value.
    pub fn value_type_id(&self) -> (r: ContextType)
        ensures
            r == self.value().type_of(),
    {
        match self {
            Context::Mut(value) => value.type_id(),
            Context::Ref(value) => value.type_id(),
            Context::Owned(value) => value.type_id(),
        }
    }

    /// The value, if it is of the given type.
    pub fn downcast_ref(&self, wanted: ContextType) -> (r: Option<&ContextValue>)
        ensures
            r == if self.value().type_of() == wanted {
                Some(&self.value())
            } else {
                None
            },
    {
        match self {
            Context::Mut(value) => if value.type_id() == wanted {
                Some(&**value)
            } else {
                None
            },
            Context::Ref(value) => if value.type_id() == wanted {
                Some(*value)
            } else {
                None
            },
            Context::Owned(value) => if value.type_id() == wanted {
                Some(value)
            } else {
                None
            },
        }
    }

    /// The value to write to, if it is of the given type and not lent for reading.
    pub fn downcast_mut<'b>(&'b mut self, wanted: ContextType) -> (r: Option<&'b mut ContextValue>)
        ensures
            r is Some == (!(*old(self) is Ref) && old(self).value().type_of() == wanted),
            r matches Some(value) ==> {
                &&& *value == old(self).value()
                &&& final(self).value() == *final(value)
            },
            r is None ==> final(self).value() == old(self).value(),
            *final(self) is Mut == *old(self) is Mut,
            *final(self) is Ref == *old(self) is Ref,
            *old(self) is Mut ==> *final(final(self)->Mut_0) == *final(old(self)->Mut_0),
    {
        match self {
            Context::Mut(value) => if value.type_id() == wanted {
                Some(&mut **value)
            } else {
                None
            },
            Context::Ref(_) => None,
            Context::Owned(value) => if value.type_id() == wanted {
                Some(value)
            } else {
                None
            },
        }
    }

    /// Lends the value on: for reading where it is lent for reading, for writing
    /// otherwise.
    pub fn borrow<'b>(&'b mut self) -> (r: Context<'b>)
        ensures
            r.value() == old(self).value(),
            r is Ref == *old(self) is Ref,
            r is Mut == !(*old(self) is Ref),
            final(self).value() == if r is Mut {
                *final(r->Mut_0)
            } else {
                old(self).value()
            },
            *final(self) is Mut == *old(self) is Mut,
            *final(self) is Ref == *old(self) is Ref,
            *old(self) is Mut ==> *final(final(self)->Mut_0) == *final(old(self)->Mut_0),
    {
        match self {
            Context::Mut(value) => Context::Mut(&mut **value),
            Context::Ref(value) => Context::Ref(&**value),
            Context::Owned(value) => Context::Mut(value),
        }
    }
}

/// A context on the stack.
#[derive(Debug)]
pub struct ContextEntry<'a> {
    /// The type of the value.
    pub type_id: ContextType,
    /// The context.
    pub context: Context<'a>,
    /// How many borrow the value for reading.
    pub readers: usize,
    /// Whether the value is borrowed for writing.
    pub written: bool,
}

/// What decides whether a context is found.
pub struct EntryModel {
    pub type_id: ContextType,
    /// The value is lent for reading only.
    pub read_only: bool,
    pub readers: int,
    pub written: bool,
}

impl<'a> View for ContextEntry<'a> {
    type V = EntryModel;

    open spec fn view(&self) -> EntryModel {
        EntryModel {
            type_id: self.type_id,
            read_only: self.context is Ref,
            readers: self.readers as int,
            written: self.written,
        }
    }
}

/// The contexts of a component, outermost first.
#[derive(Debug)]
pub struct ContextStack<'a> {
    contexts: Vec<ContextEntry<'a>>,
}

/// The context to read among the first `count`: the innermost one of the type; none,
/// where that one is borrowed for writing.
pub open spec fn readable(entries: Seq<EntryModel>, wanted: ContextType, count: int) -> Option<int>
    decreases count,
{
    if count <= 0 {
        None
    } else if entries[count - 1].type_id != wanted {
        readable(entries, wanted, count - 1)
    } else if entries[count - 1].written {
        None
    } else {
        Some(count - 1)
    }
}

/// The context to write to among the first `count`: the innermost one of the type that is
/// not lent for reading only; none, where one of the type that is further in is borrowed.
pub open spec fn writable(entries: Seq<EntryModel>, wanted: ContextType, count: int) -> Option<int>
    decreases count,
{
    if count <= 0 {
        None
    } else if entries[count - 1].type_id != wanted {
        writable(entries, wanted, count - 1)
    } else if entries[count - 1].written || entries[count - 1].readers > 0 {
        None
    } else if entries[count - 1].read_only {
        writable(entries, wanted, count - 1)
    } else {
        Some(count - 1)
    }
}

impl<'a> ContextStack<'a> {
    /// The contexts, as far as they decide what is found.
    pub closed spec fn entries(self) -> Seq<EntryModel> {
        self.contexts@.map_values(|entry: ContextEntry<'a>| entry@)
    }

    /// The values of the contexts.
    pub closed spec fn values(self) -> Seq<ContextValue> {
        self.contexts@.map_values(|entry: ContextEntry<'a>| entry.context.value())
    }

    /// The contexts themselves, with the references to what is lent.
    pub closed spec fn lent(self) -> Seq<Context<'a>> {
        self.contexts@.map_values(|entry: ContextEntry<'a>| entry.context)
    }

    /// Every context is listed under the type of its value.
    pub open spec fn wf(self) -> bool {
        &&& self.entries().len() == self.values().len()
        &&& self.lent().len() == self.values().len()
        &&& forall|i: int|
            0 <= i < self.entries().len() ==> (#[trigger] self.entries()[i]).type_id
                == self.values()[i].type_of()
        &&& forall|i: int|
            0 <= i < self.lent().len() ==> (#[trigger] self.lent()[i]).value()
                == self.values()[i] && (self.lent()[i] is Ref) == self.entries()[i].read_only
    }

    /// A stack with one context, which may be written to. What is written reaches the value
    /// that was lent.
    pub fn root(root_context: &'a mut ContextValue) -> (r: Self)
        ensures
            r.entries() == seq![
                EntryModel {
                    type_id: old(root_context).type_of(),
                    read_only: false,
                    readers: 0,
                    written: false,
                },
            ],
            r.values() == seq![*old(root_context)],
            r.lent().len() == 1,
            r.lent()[0] is Mut,
            *final(r.lent()[0]->Mut_0) == *final(root_context),
            r.wf(),
    {
        let ghost value = *root_context;
        let type_id = root_context.type_id();
        let mut contexts: Vec<ContextEntry<'a>> = Vec::new();
        contexts.push(
            ContextEntry {
                type_id,
                context: Context::Mut(root_context),
                readers: 0,
                written: false,
            },
        );
        let r = ContextStack { contexts };
        proof {
            assert(r.entries() =~= seq![
                EntryModel {
                    type_id: value.type_of(),
                    read_only: false,
                    readers: 0,
                    written: false,
                },
            ]);
            assert(r.values() =~= seq![value]);
        }
        r
    }

    /// Puts a context on the stack, if there is one.
    pub fn enter(&mut self, context: Option<Context<'a>>)
        requires
            old(self).wf(),
        ensures
            context matches Some(context) ==> {
                &&& final(self).entries() == old(self).entries().push(
                    EntryModel {
                        type_id: context.value().type_of(),
                        read_only: context is Ref,
                        readers: 0,
                        written: false,
                    },
                )
                &&& final(self).values() == old(self).values().push(context.value())
                &&& final(self).lent() == old(self).lent().push(context)
            },
            context is None ==> {
                &&& final(self).entries() == old(self).entries()
                &&& final(self).values() == old(self).values()
                &&& final(self).lent() == old(self).lent()
            },
            final(self).wf(),
    {
        if let Some(context) = context {
            let ghost entries = self.entries();
            let ghost values = self.values();
            let ghost lent = self.lent();
            let ghost added = context;
            let ghost value = context.value();
            let ghost read_only = context is Ref;
            let type_id = context.value_type_id();
            self.contexts.push(ContextEntry { type_id, context, readers: 0, written: false });
            proof {
                assert(self.entries() =~= entries.push(
                    EntryModel {
                        type_id: value.type_of(),
                        read_only,
                        readers: 0,
                        written: false,
                    },
                ));
                assert(self.values() =~= values.push(value));
                assert(self.lent() =~= lent.push(added));
            }
        }
    }

    /// Takes the context off the stack that [`ContextStack::enter`] put on it, if it did. A
    /// value that was lent for writing is then what was written to it.
    pub fn leave(&mut self, entered: bool)
        requires
            old(self).wf(),
            entered ==> old(self).entries().len() > 0,
        ensures
            entered ==> {
                &&& final(self).entries() == old(self).entries().drop_last()
                &&& final(self).values() == old(self).values().drop_last()
                &&& final(self).lent() == old(self).lent().drop_last()
            },
            entered && old(self).lent().last() is Mut ==> *final(
                old(self).lent().last()->Mut_0
            ) == old(self).values().last(),
            !entered ==> {
                &&& final(self).entries() == old(self).entries()
                &&& final(self).values() == old(self).values()
                &&& final(self).lent() == old(self).lent()
            },
            final(self).wf(),
    {
        if entered {
            let ghost entries = self.entries();
            let ghost values = self.values();
            let ghost lent = self.lent();
            let taken = self.contexts.pop();
            proof {
                assert(self.entries() =~= entries.drop_last());
                assert(self.values() =~= values.drop_last());
                assert(self.lent() =~= lent.drop_last());
                assert(has_resolved(taken));
                assert(has_resolved(taken->0));
                assert(taken->0.context == lent.last());
            }
        }
    }

    /// Finds a context to read, and borrows it. The innermost context of the type hides the
    /// others, also where it cannot be borrowed.
    pub fn get_context(&mut self, wanted: ContextType) -> (found: Option<usize>)
        requires
            old(self).wf(),
            forall|i: int|
                0 <= i < old(self).entries().len() ==> (#[trigger] old(self).entries()[i]).readers
                    < usize::MAX,
        ensures
            ({
                let entries = old(self).entries();
                match readable(entries, wanted, entries.len() as int) {
                    Some(k) => {
                        &&& found == Some(k as usize)
                        &&& final(self).entries() == entries.update(
                            k,
                            EntryModel { readers: entries[k].readers + 1, ..entries[k] },
                        )
                    },
                    None => found is None && final(self).entries() == entries,
                }
            }),
            final(self).values() == old(self).values(),
            final(self).lent() == old(self).lent(),
            final(self).wf(),
    {
        let ghost entries = self.entries();
        let ghost values = self.values();
        let ghost lent = self.lent();
        let mut i: usize = self.contexts.len();
        while i > 0
            invariant
                i <= self.contexts@.len(),
                self.wf(),
                entries == self.entries(),
                values == self.values(),
                lent == self.lent(),
                entries == old(self).entries(),
                values == old(self).values(),
                lent == old(self).lent(),
                forall|k: int|
                    0 <= k < entries.len() ==> (#[trigger] entries[k]).readers < usize::MAX,
                readable(entries, wanted, i as int) == readable(
                    entries,
                    wanted,
                    entries.len() as int,
                ),
            decreases i,
        {
            let k: usize = i - 1;
            assert(entries[k as int] == self.contexts@[k as int]@);
            if self.contexts[k].type_id == wanted {
                if self.contexts[k].written {
                    return None;
                }
                let readers: usize = self.contexts[k].readers;
                self.contexts[k].readers = readers + 1;
                proof {
                    assert(self.entries() =~= entries.update(
                        k as int,
                        EntryModel {
                            readers: entries[k as int].readers + 1,
                            ..entries[k as int]
                        },
                    ));
                    assert(self.values() =~= values);
                    assert(self.lent() =~= lent);
                }
                return Some(k);
            }
            i = k;
        }
        None
    }

    /// Finds a context to write to, and borrows it.
    pub fn get_context_mut(&mut self, wanted: ContextType) -> (found: Option<usize>)
        requires
            old(self).wf(),
        ensures
            ({
                let entries = old(self).entries();
                match writable(entries, wanted, entries.len() as int) {
                    Some(k) => {
                        &&& found == Some(k as usize)
                        &&& final(self).entries() == entries.update(
                            k,
                            EntryModel { written: true, ..entries[k] },
                        )
                    },
                    None => found is None && final(self).entries() == entries,
                }
            }),
            final(self).values() == old(self).values(),
            final(self).lent() == old(self).lent(),
            final(self).wf(),
    {
        let ghost entries = self.entries();
        let ghost values = self.values();
        let ghost lent = self.lent();
        let mut i: usize = self.contexts.len();
        while i > 0
            invariant
                i <= self.contexts@.len(),
                self.wf(),
                entries == self.entries(),
                values == self.values(),
                lent == self.lent(),
                entries == old(self).entries(),
                values == old(self).values(),
                lent == old(self).lent(),
                writable(entries, wanted, i as int) == writable(
                    entries,
                    wanted,
                    entries.len() as int,
                ),
            decreases i,
        {
            let k: usize = i - 1;
            assert(entries[k as int] == self.contexts@[k as int]@);
            if self.contexts[k].type_id == wanted {
                if self.contexts[k].written || self.contexts[k].readers > 0 {
                    return None;
                }
                let read_only = match &self.contexts[k].context {
                    Context::Ref(_) => true,
                    _ => false,
                };
                if !read_only {
                    self.contexts[k].written = true;
                    proof {
                        assert(self.entries() =~= entries.update(
                            k as int,
                            EntryModel { written: true, ..entries[k as int] },
                        ));
                        assert(self.values() =~= values);
                        assert(self.lent() =~= lent);
                    }
                    return Some(k);
                }
            }
            i = k;
        }
        None
    }

    /// Gives back a context that [`ContextStack::get_context`] lent.
    pub fn release(&mut self, index: usize)
        requires
            old(self).wf(),
            index < old(self).entries().len(),
            old(self).entries()[index as int].readers > 0,
        ensures
            final(self).entries() == old(self).entries().update(
                index as int,
                EntryModel {
                    readers: old(self).entries()[index as int].readers - 1,
                    ..old(self).entries()[index as int]
                },
            ),
            final(self).values() == old(self).values(),
            final(self).lent() == old(self).lent(),
            final(self).wf(),
    {
        let ghost entries = self.entries();
        let ghost values = self.values();
        let ghost lent = self.lent();
        assert(entries[index as int] == self.contexts@[index as int]@);
        let readers: usize = self.contexts[index].readers;
        self.contexts[index].readers = readers - 1;
        proof {
            assert(self.entries() =~= entries.update(
                index as int,
                EntryModel {
                    readers: entries[index as int].readers - 1,
                    ..entries[index as int]
                },
            ));
            assert(self.values() =~= values);
            assert(self.lent() =~= lent);
        }
    }

    /// Gives back a context that [`ContextStack::get_context_mut`] lent.
    pub fn release_mut(&mut self, index: usize)
        requires
            old(self).wf(),
            index < old(self).entries().len(),
        ensures
            final(self).entries() == old(self).entries().update(
                index as int,
                EntryModel { written: false, ..old(self).entries()[index as int] },
            ),
            final(self).values() == old(self).values(),
            final(self).lent() == old(self).lent(),
            final(self).wf(),
    {
        let ghost entries = self.entries();
        let ghost values = self.values();
        let ghost lent = self.lent();
        assert(entries[index as int] == self.contexts@[index as int]@);
        self.contexts[index].written = false;
        proof {
            assert(self.entries() =~= entries.update(
                index as int,
                EntryModel { written: false, ..entries[index as int] },
            ));
            assert(self.values() =~= values);
            assert(self.lent() =~= lent);
        }
    }

    /// Writes to a context that [`ContextStack::get_context_mut`] lent, and to the value that
    /// the context was lent, where it was lent one.
    pub fn set_value(&mut self, index: usize, value: ContextValue)
        requires
            old(self).wf(),
            index < old(self).entries().len(),
            old(self).entries()[index as int].written,
            !old(self).entries()[index as int].read_only,
            value.type_of() == old(self).entries()[index as int].type_id,
        ensures
            final(self).entries() == old(self).entries(),
            final(self).values() == old(self).values().update(index as int, value),
            final(self).lent().len() == old(self).lent().len(),
            forall|i: int|
                0 <= i < old(self).lent().len() && i != index ==> #[trigger] final(self).lent()[i]
                    == old(self).lent()[i],
            final(self).lent()[index as int] is Mut == old(self).lent()[index as int] is Mut,
            old(self).lent()[index as int] is Mut ==> *final(
                final(self).lent()[index as int]->Mut_0
            ) == *final(old(self).lent()[index as int]->Mut_0),
            final(self).wf(),
    {
        let ghost entries = self.entries();
        let ghost values = self.values();
        assert(entries[index as int] == self.contexts@[index as int]@);
        match &mut self.contexts[index].context {
            Context::Mut(place) => {
                **place = value;
            },
            Context::Ref(_) => {},
            Context::Owned(place) => {
                *place = value;
            },
        }
        proof {
            assert(self.entries() =~= entries);
            assert(self.values() =~= values.update(index as int, value));
        }
    }

    /// Ends the stack. Every value that was lent for writing is then what was written to it.
    pub fn finish(self)
        requires
            self.wf(),
        ensures
            forall|i: int|
                0 <= i < self.lent().len() && (#[trigger] self.lent()[i]) is Mut ==> *final(
                    self.lent()[i]->Mut_0
                ) == self.values()[i],
    {
        let contexts = self.contexts;
        assert(has_resolved(contexts));
        assert forall|i: int|
            0 <= i < self.lent().len() && (#[trigger] self.lent()[i]) is Mut implies *final(
            self.lent()[i]->Mut_0
        ) == self.values()[i] by {
            assert(has_resolved(contexts@[i]));
        }
    }

    /// The value of a context.
    pub fn value(&self, index: usize) -> (r: &ContextValue)
        requires
            index < self.values().len(),
        ensures
            *r == self.values()[index as int],
    {
        match &self.contexts[index].context {
            Context::Mut(value) => &**value,
            Context::Ref(value) => *value,
            Context::Owned(value) => value,
        }
    }
}

/// A context that was entered is the one that is found of its type, and hides no context of
/// another type. One that is lent for reading only leaves writing to those further out.
/// Leaving it undoes entering it.
pub proof fn lemma_context_lasts_while_entered(
    entries: Seq<EntryModel>,
    entered: EntryModel,
    wanted: ContextType,
)
    requires
        entered.readers == 0,
        !entered.written,
    ensures
        readable(entries.push(entered), wanted, entries.len() as int + 1) == if entered.type_id == wanted {
            Some(entries.len() as int)
        } else {
            readable(entries, wanted, entries.len() as int)
        },
        writable(entries.push(entered), wanted, entries.len() as int + 1) == if entered.type_id == wanted
            && !entered.read_only {
            Some(entries.len() as int)
        } else {
            writable(entries, wanted, entries.len() as int)
        },
        entries.push(entered).drop_last() == entries,
{
    let count: int = entries.len() as int;
    assert(entries.take(count) =~= entries.push(entered).take(count));
    lemma_same_prefix(entries, entries.push(entered), wanted, count);
    assert(entries.push(entered).drop_last() =~= entries);
}

/// What is found depends on the contexts among which it is looked for alone.
proof fn lemma_same_prefix(
    entries: Seq<EntryModel>,
    others: Seq<EntryModel>,
    wanted: ContextType,
    count: int,
)
    requires
        0 <= count <= entries.len(),
        count <= others.len(),
        entries.take(count) == others.take(count),
    ensures
        readable(entries, wanted, count) == readable(others, wanted, count),
        writable(entries, wanted, count) == writable(others, wanted, count),
    decreases count,
{
    if count > 0 {
        assert(entries[count - 1] == entries.take(count)[count - 1]);
        assert(others[count - 1] == others.take(count)[count - 1]);
        assert(entries.take(count - 1) =~= entries.take(count).take(count - 1));
        assert(others.take(count - 1) =~= others.take(count).take(count - 1));
        lemma_same_prefix(entries, others, wanted, count - 1);
    }
}

/// Giving a context back undoes borrowing it, whether it was borrowed for reading or for
/// writing.
pub proof fn lemma_release_undoes_borrow(entries: Seq<EntryModel>, wanted: ContextType)
    ensures
        readable(entries, wanted, entries.len() as int) matches Some(k) ==> {
            let lent = entries.update(
                k,
                EntryModel { readers: entries[k].readers + 1, ..entries[k] },
            );
            lent.update(k, EntryModel { readers: lent[k].readers - 1, ..lent[k] }) == entries
        },
        writable(entries, wanted, entries.len() as int) matches Some(k) ==> {
            let lent = entries.update(k, EntryModel { written: true, ..entries[k] });
            lent.update(k, EntryModel { written: false, ..lent[k] }) == entries
        },
{
    lemma_found_in_range(entries, wanted, entries.len() as int);
    if let Some(k) = readable(entries, wanted, entries.len() as int) {
        let lent = entries.update(
            k,
            EntryModel { readers: entries[k].readers + 1, ..entries[k] },
        );
        assert(lent.update(k, EntryModel { readers: lent[k].readers - 1, ..lent[k] })
            =~= entries);
    }
    if let Some(k) = writable(entries, wanted, entries.len() as int) {
        let lent = entries.update(k, EntryModel { written: true, ..entries[k] });
        assert(lent.update(k, EntryModel { written: false, ..lent[k] }) =~= entries);
    }
}

/// A context that is found is one of those among which it is looked for, and is not borrowed
/// for writing.
proof fn lemma_found_in_range(entries: Seq<EntryModel>, wanted: ContextType, count: int)
    requires
        count <= entries.len(),
    ensures
        readable(entries, wanted, count) matches Some(k) ==> 0 <= k < count
            && !entries[k].written,
        writable(entries, wanted, count) matches Some(k) ==> 0 <= k < count
            && !entries[k].written,
    decreases count,
{
    if count > 0 {
        lemma_found_in_range(entries, wanted, count - 1);
    }
}

/// While the innermost context of a type is borrowed for writing, no context of the type
/// is found: one further out does not stand in for it.
pub proof fn lemma_borrowed_context_hides_outer(
    entries: Seq<EntryModel>,
    wanted: ContextType,
    inner: int,
)
    requires
        0 <= inner < entries.len(),
        entries[inner].type_id == wanted,
        entries[inner].written,
        forall|i: int| inner < i < entries.len() ==> (#[trigger] entries[i]).type_id != wanted,
    ensures
        readable(entries, wanted, entries.len() as int) is None,
        writable(entries, wanted, entries.len() as int) is None,
{
    lemma_skips_other_types(entries, wanted, inner, entries.len() as int);
}

proof fn lemma_skips_other_types(
    entries: Seq<EntryModel>,
    wanted: ContextType,
    inner: int,
    count: int,
)
    requires
        0 <= inner < count <= entries.len(),
        forall|i: int| inner < i < count ==> (#[trigger] entries[i]).type_id != wanted,
    ensures
        readable(entries, wanted, count) == readable(entries, wanted, inner + 1),
        writable(entries, wanted, count) == writable(entries, wanted, inner + 1),
    decreases count,
{
    if count > inner + 1 {
        assert(entries[count - 1].type_id != wanted);
        lemma_skips_other_types(entries, wanted, inner, count - 1);
    }
}

/// What is found for reading is the innermost context of the type, unless that one is borrowed
/// for writing; where nothing is found there is none, or that one is.
pub proof fn lemma_innermost_is_read(entries: Seq<EntryModel>, wanted: ContextType, count: int)
    requires
        0 <= count <= entries.len(),
    ensures
        readable(entries, wanted, count) matches Some(k) ==> {
            &&& 0 <= k < count
            &&& entries[k].type_id == wanted
            &&& !entries[k].written
            &&& forall|i: int| k < i < count ==> (#[trigger] entries[i]).type_id != wanted
        },
        readable(entries, wanted, count) is None ==> forall|k: int|
            0 <= k < count && (#[trigger] entries[k]).type_id == wanted ==> {
                ||| entries[k].written
                ||| exists|i: int| k < i < count && (#[trigger] entries[i]).type_id == wanted
            },
    decreases count,
{
    if count > 0 {
        lemma_innermost_is_read(entries, wanted, count - 1);
        if readable(entries, wanted, count) is None {
            assert forall|k: int|
                0 <= k < count && (#[trigger] entries[k]).type_id == wanted implies entries[k].written
                || exists|i: int| k < i < count && (#[trigger] entries[i]).type_id == wanted by {
                if k < count - 1 && entries[count - 1].type_id == wanted {
                    assert(entries[count - 1].type_id == wanted);
                }
            }
        }
    }
}

/// What is found for writing is the innermost context of the type that is not lent for reading
/// only, where neither it nor any of the type further in is borrowed.
pub proof fn lemma_innermost_is_written(entries: Seq<EntryModel>, wanted: ContextType, count: int)
    requires
        0 <= count <= entries.len(),
    ensures
        writable(entries, wanted, count) matches Some(k) ==> {
            &&& 0 <= k < count
            &&& entries[k].type_id == wanted
            &&& !entries[k].read_only
            &&& forall|i: int|
                k <= i < count && (#[trigger] entries[i]).type_id == wanted ==> !entries[i].written
                    && entries[i].readers <= 0
            &&& forall|i: int|
                k < i < count && (#[trigger] entries[i]).type_id == wanted ==> entries[i].read_only
        },
        writable(entries, wanted, count) is None ==> forall|k: int|
            0 <= k < count && (#[trigger] entries[k]).type_id == wanted && !entries[k].read_only
                ==> exists|i: int|
                k <= i < count && (#[trigger] entries[i]).type_id == wanted && (entries[i].written
                    || entries[i].readers > 0),
    decreases count,
{
    if count > 0 {
        lemma_innermost_is_written(entries, wanted, count - 1);
        if writable(entries, wanted, count) is None {
            assert forall|k: int|
                0 <= k < count && (#[trigger] entries[k]).type_id == wanted
                    && !entries[k].read_only implies exists|i: int|
                k <= i < count && (#[trigger] entries[i]).type_id == wanted && (entries[i].written
                    || entries[i].readers > 0) by {
                let last = entries[count - 1];
                if last.type_id == wanted && (last.written || last.readers > 0) {
                    assert(entries[count - 1].type_id == wanted);
                } else {
                    assert(writable(entries, wanted, count - 1) is None);
                    let i = choose|i: int|
                        k <= i < count - 1 && (#[trigger] entries[i]).type_id == wanted && (
                        entries[i].written || entries[i].readers > 0);
                    assert(entries[i].type_id == wanted);
                }
            }
        }
    }
}

/// Values of different kinds have different types; those of the application have the type that
/// they are numbered with.
pub proof fn lemma_types_of_values(value: ContextValue)
    ensures
        value is Text <==> value.type_of() == ContextType::Text,
        value is Number <==> value.type_of() == ContextType::Number,
        value is System <==> value.type_of() == ContextType::System,
        value is ViewParent <==> value.type_of() == ContextType::ViewParent,
        value is Focus <==> value.type_of() == ContextType::Focus,
        value is Keybindings <==> value.type_of() == ContextType::Keybindings,
        value is Notifications <==> value.type_of() == ContextType::Notifications,
        value is InVirtualList <==> value.type_of() == ContextType::InVirtualList,
        value matches ContextValue::Application { type_number, value: _ } ==> value.type_of()
            == ContextType::Application(type_number),
{
}

} // verus!
