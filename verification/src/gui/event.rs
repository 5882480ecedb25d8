//! Events that widgets send and receive.
use crate::geom2d::IVec2;
use vstd::prelude::*;

verus! {

/// Input delivered to a widget.
#[derive(Copy, Clone, PartialEq, Eq, Structural, Debug)]
pub enum GuiInputEvent {
    CursorMoved(IVec2),
    PrimaryButton(bool),
}

/// What a widget reports when it is used.
#[derive(Clone, Debug)]
pub enum GuiActionEvent {
    Generic,
    Named(String),
    Index(usize),
    NamedIndex(String, usize),
}

/// A borrowed form of `GuiActionEvent`, for matching on string slices.
#[derive(Copy, Clone, Debug)]
pub enum GuiActionEventRef<'a> {
    Generic,
    Named(&'a str),
    Index(usize),
    NamedIndex(&'a str, usize),
}

impl GuiActionEvent {
    /// The same event, borrowing its name.
    pub fn as_ref(&self) -> (r: GuiActionEventRef<'_>)
        ensures
            match (*self, r) {
                (GuiActionEvent::Generic, GuiActionEventRef::Generic) => true,
                (GuiActionEvent::Named(s), GuiActionEventRef::Named(t)) => t@ == s@,
                (GuiActionEvent::Index(i), GuiActionEventRef::Index(j)) => i == j,
                (GuiActionEvent::NamedIndex(s, i), GuiActionEventRef::NamedIndex(t, j)) => t@
                    == s@ && i == j,
                _ => false,
            },
    {
        match self {
            GuiActionEvent::Generic => GuiActionEventRef::Generic,
            GuiActionEvent::Named(s) => GuiActionEventRef::Named(s.as_str()),
            GuiActionEvent::Index(i) => GuiActionEventRef::Index(*i),
            GuiActionEvent::NamedIndex(s, i) => GuiActionEventRef::NamedIndex(s.as_str(), *i),
        }
    }
}

} // verus!
