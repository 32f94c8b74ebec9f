//! The change events the tree differ emits: one required remote mutation
//! each. `Create` carries new content, `Update` carries new content plus the
//! destination-side revision token, `Delete` carries the token alone.

use vstd::prelude::*;

verus! {

/// One required remote mutation.
#[derive(Debug, Clone, PartialEq, Eq, PartialOrd, Ord)]
pub enum Event {
    Create { path: String, content: Option<String> },
    Update { path: String, content: Option<String>, sha: String },
    Delete { path: String, sha: String },
}

/// Mathematical image of an [`Event`].
pub ghost enum EventView {
    Create { path: Seq<char>, content: Option<Seq<char>> },
    Update { path: Seq<char>, content: Option<Seq<char>>, sha: Seq<char> },
    Delete { path: Seq<char>, sha: Seq<char> },
}

impl View for Event {
    type V = EventView;

    open spec fn view(&self) -> EventView {
        match self {
            Event::Create { path, content } => EventView::Create {
                path: path@,
                content: match content {
                    Some(c) => Some(c@),
                    None => None,
                },
            },
            Event::Update { path, content, sha } => EventView::Update {
                path: path@,
                content: match content {
                    Some(c) => Some(c@),
                    None => None,
                },
                sha: sha@,
            },
            Event::Delete { path, sha } => EventView::Delete { path: path@, sha: sha@ },
        }
    }
}

} // verus!
