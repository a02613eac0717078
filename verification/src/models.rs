//! The events of the queue.
use crate::json::{json_field, json_text_field};
use crate::text::same_str;
use vstd::prelude::*;

verus! {

/// What an event asks for.
#[derive(Debug, Clone, PartialEq, Eq)]
pub enum EventAction {
    Add,
    Remove,
    Rename { from: String, to: String },
    Create,
    Delete,
}

/// One entry of the event queue.
#[derive(Debug, Clone, PartialEq, Eq)]
pub struct Event {
    pub id: i64,
    pub timestamp_ms: i64,
    pub playlist_name: String,
    pub action: EventAction,
    pub track_path: Option<String>,
    pub extra: Option<String>,
    pub is_synced: bool,
}

/// An action as contracts see it.
pub enum ActionView {
    Add,
    Remove,
    Rename { from: Seq<char>, to: Seq<char> },
    Create,
    Delete,
}

/// An event as contracts see it.
pub struct EventView {
    pub id: i64,
    pub timestamp_ms: i64,
    pub playlist_name: Seq<char>,
    pub action: ActionView,
    pub track_path: Option<Seq<char>>,
    pub extra: Option<Seq<char>>,
    pub is_synced: bool,
}

/// An optional string as contracts see it.
pub open spec fn opt_text(o: Option<String>) -> Option<Seq<char>> {
    match o {
        Some(s) => Some(s@),
        None => None,
    }
}

/// Names and values as contracts see them.
pub open spec fn pair_views(v: Seq<(String, String)>) -> Seq<(Seq<char>, Seq<char>)> {
    v.map_values(|p: (String, String)| (p.0@, p.1@))
}

/// A list of strings as contracts see it.
pub open spec fn texts(v: Seq<String>) -> Seq<Seq<char>> {
    v.map_values(|s: String| s@)
}

impl View for EventAction {
    type V = ActionView;

    open spec fn view(&self) -> ActionView {
        match self {
            EventAction::Add => ActionView::Add,
            EventAction::Remove => ActionView::Remove,
            EventAction::Rename { from, to } => ActionView::Rename { from: from@, to: to@ },
            EventAction::Create => ActionView::Create,
            EventAction::Delete => ActionView::Delete,
        }
    }
}

impl View for Event {
    type V = EventView;

    open spec fn view(&self) -> EventView {
        EventView {
            id: self.id,
            timestamp_ms: self.timestamp_ms,
            playlist_name: self.playlist_name@,
            action: self.action@,
            track_path: opt_text(self.track_path),
            extra: opt_text(self.extra),
            is_synced: self.is_synced,
        }
    }
}

/// A list of events as contracts see it.
pub open spec fn event_views(v: Seq<Event>) -> Seq<EventView> {
    v.map_values(|e: Event| e@)
}

/// A copy of an optional string.
pub fn copy_opt(o: &Option<String>) -> (r: Option<String>)
    ensures
        opt_text(r) == opt_text(*o),
{
    match o {
        Some(s) => Some(s.clone()),
        None => None,
    }
}

impl EventAction {
    /// A copy of the action.
    pub fn copy(&self) -> (r: EventAction)
        ensures
            r@ == self@,
    {
        match self {
            EventAction::Add => EventAction::Add,
            EventAction::Remove => EventAction::Remove,
            EventAction::Rename { from, to } => EventAction::Rename {
                from: from.clone(),
                to: to.clone(),
            },
            EventAction::Create => EventAction::Create,
            EventAction::Delete => EventAction::Delete,
        }
    }
}

impl Event {
    /// A copy of the event.
    pub fn copy(&self) -> (r: Event)
        ensures
            r@ == self@,
    {
        Event {
            id: self.id,
            timestamp_ms: self.timestamp_ms,
            playlist_name: self.playlist_name.clone(),
            action: self.action.copy(),
            track_path: copy_opt(&self.track_path),
            extra: copy_opt(&self.extra),
            is_synced: self.is_synced,
        }
    }
}


/// The name under which an action stands in the queue.
pub open spec fn action_name(a: ActionView) -> Seq<char> {
    match a {
        ActionView::Add => "add"@,
        ActionView::Remove => "remove"@,
        ActionView::Rename { from, to } => "rename"@,
        ActionView::Create => "create"@,
        ActionView::Delete => "delete"@,
    }
}

/// Gives the name under which an action stands in the queue.
pub fn action_str(a: &EventAction) -> (r: &'static str)
    ensures
        r@ == action_name(a@),
{
    match a {
        EventAction::Add => "add",
        EventAction::Remove => "remove",
        EventAction::Rename { .. } => "rename",
        EventAction::Create => "create",
        EventAction::Delete => "delete",
    }
}

/// The text of an optional text; empty where there is none.
pub open spec fn text_or_empty(o: Option<Seq<char>>) -> Seq<char> {
    match o {
        Some(s) => s,
        None => Seq::empty(),
    }
}

/// The action that stands in the queue under `name`, where `from` and `to`
/// are what the rename's JSON text gives. A name that is none of the five
/// stands for a creation.
pub open spec fn action_of(name: Seq<char>, from: Option<Seq<char>>, to: Option<Seq<char>>) -> ActionView {
    if name == "add"@ {
        ActionView::Add
    } else if name == "remove"@ {
        ActionView::Remove
    } else if name == "rename"@ {
        ActionView::Rename { from: text_or_empty(from), to: text_or_empty(to) }
    } else if name == "delete"@ {
        ActionView::Delete
    } else {
        ActionView::Create
    }
}

/// Gives the action that stands in the queue under `name`.
pub fn action_from_parts(name: &str, from: Option<String>, to: Option<String>) -> (r: EventAction)
    ensures
        r@ == action_of(name@, opt_text(from), opt_text(to)),
{
    if same_str(name, "add") {
        EventAction::Add
    } else if same_str(name, "remove") {
        EventAction::Remove
    } else if same_str(name, "rename") {
        let from = match from {
            Some(s) => s,
            None => String::new(),
        };
        let to = match to {
            Some(s) => s,
            None => String::new(),
        };
        EventAction::Rename { from, to }
    } else if same_str(name, "delete") {
        EventAction::Delete
    } else {
        EventAction::Create
    }
}

/// What the JSON text of a rename gives under `key`.
pub open spec fn extra_field(extra: Option<Seq<char>>, key: Seq<char>) -> Option<Seq<char>> {
    match extra {
        Some(e) => json_field(e, key),
        None => None,
    }
}

/// Reads an action from its name and the JSON text that goes with it.
pub fn decode_action(name: &str, extra: Option<&str>) -> (r: EventAction)
    ensures
        r@ == action_of(
            name@,
            extra_field(
                match extra {
                    Some(e) => Some(e@),
                    None => None,
                },
                "from"@,
            ),
            extra_field(
                match extra {
                    Some(e) => Some(e@),
                    None => None,
                },
                "to"@,
            ),
        ),
{
    let (from, to) = match extra {
        Some(e) => (json_text_field(e, "from"), json_text_field(e, "to")),
        None => (None, None),
    };
    action_from_parts(name, from, to)
}

} // verus!
