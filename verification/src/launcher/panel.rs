//! The panel of the launcher starts as a search field alone and grows to
//! show the list once there is something to show. This module decides when
//! it grows and when it shrinks; the caller animates.

use vstd::prelude::*;

verus! {

/// A change of the panel's size.
#[derive(Clone, Copy, Debug, PartialEq, Eq, Structural)]
pub enum Resize {
    Expand,
    Collapse,
}

/// What happened to the search field.
#[derive(Clone, Copy, Debug, PartialEq, Eq, Structural)]
pub enum PanelEvent {
    /// The window is about to be shown.
    Shown,
    /// The query changed; `empty` says whether nothing is left of it.
    QueryChanged { empty: bool },
    /// Insert mode was entered.
    InsertEntered,
    /// Insert mode was left; `empty` says whether the query is empty.
    InsertLeft { empty: bool },
}

/// Whether the panel shows the list.
#[derive(Clone, Copy, Debug, PartialEq, Eq, Structural)]
pub struct Panel {
    pub expanded: bool,
}

/// Whether the panel is to show the list after an event: it is collapsed
/// when the window is shown; a query makes it expand and an empty query
/// makes it collapse; entering Insert mode makes it expand, and leaving
/// Insert mode with an empty query makes it collapse.
pub open spec fn expanded_after(expanded: bool, event: PanelEvent) -> bool {
    match event {
        PanelEvent::Shown => false,
        PanelEvent::QueryChanged { empty } => !empty,
        PanelEvent::InsertEntered => true,
        PanelEvent::InsertLeft { empty } => expanded && !empty,
    }
}

/// The change of size that an event asks to animate: none where the panel
/// stays as it is, and none when the window is shown, which sets the size at
/// once.
pub open spec fn resize_for(expanded: bool, event: PanelEvent) -> Option<Resize> {
    let after = expanded_after(expanded, event);
    if event == PanelEvent::Shown || after == expanded {
        None
    } else if after {
        Some(Resize::Expand)
    } else {
        Some(Resize::Collapse)
    }
}

impl Panel {
    /// A collapsed panel.
    pub fn new() -> (r: Self)
        ensures
            !r.expanded,
    {
        Panel { expanded: false }
    }

    /// Takes note of an event and says how the size is to change.
    pub fn handle(&mut self, event: PanelEvent) -> (r: Option<Resize>)
        ensures
            final(self).expanded == expanded_after(old(self).expanded, event),
            r == resize_for(old(self).expanded, event),
    {
        let before = self.expanded;
        let after = match event {
            PanelEvent::Shown => false,
            PanelEvent::QueryChanged { empty } => !empty,
            PanelEvent::InsertEntered => true,
            PanelEvent::InsertLeft { empty } => before && !empty,
        };
        self.expanded = after;
        match event {
            PanelEvent::Shown => None,
            _ => {
                if after == before {
                    None
                } else if after {
                    Some(Resize::Expand)
                } else {
                    Some(Resize::Collapse)
                }
            },
        }
    }
}

/// A resize is asked for exactly when the panel changes, and it names the
/// state that the panel changes to; showing the window never asks for one.
pub proof fn lemma_resize_matches_change(expanded: bool, event: PanelEvent)
    ensures
        resize_for(expanded, event) == Some(Resize::Expand) ==> !expanded && expanded_after(
            expanded,
            event,
        ),
        resize_for(expanded, event) == Some(Resize::Collapse) ==> expanded && !expanded_after(
            expanded,
            event,
        ),
        resize_for(expanded, event) is None && event != PanelEvent::Shown ==> expanded_after(
            expanded,
            event,
        ) == expanded,
{
}

} // verus!
