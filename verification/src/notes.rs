//! The data carried by the library: notes, note groups, and the
//! lightweight note summaries the loader keeps.

use vstd::prelude::*;
use crate::ids::Uid;

verus! {

/// A named, optionally nested container for notes.
#[derive(Debug)]
pub struct NoteGroup {
    pub id: Uid,
    pub name: String,
    pub collapsed: bool,
    /// Parent group, or `None` for a root group.
    pub parent_id: Option<Uid>,
    /// Distance to a root group; derived from `parent_id`, never set freely.
    pub level: u32,
}

/// A single text note.
#[derive(Debug)]
pub struct Note {
    pub id: Uid,
    pub title: String,
    pub content: String,
    /// Nanoseconds since the Unix epoch; fixed at creation.
    pub created_at: i64,
    /// Nanoseconds since the Unix epoch; refreshed on every edit.
    pub updated_at: i64,
    pub pinned: bool,
    /// Owning group, or `None` for an ungrouped note.
    pub group_id: Option<Uid>,
}

/// The cheap fields of a note, enough to render a list entry.
#[derive(Debug)]
pub struct NoteMetadata {
    pub id: Uid,
    pub title: String,
    pub created_at: i64,
    pub updated_at: i64,
    pub pinned: bool,
    pub group_id: Option<Uid>,
    pub content_length: usize,
}

impl NoteGroup {
    pub fn duplicate(&self) -> (r: NoteGroup)
        ensures
            r == *self,
    {
        NoteGroup {
            id: self.id,
            name: self.name.clone(),
            collapsed: self.collapsed,
            parent_id: self.parent_id,
            level: self.level,
        }
    }
}

impl Note {
    pub fn duplicate(&self) -> (r: Note)
        ensures
            r == *self,
    {
        Note {
            id: self.id,
            title: self.title.clone(),
            content: self.content.clone(),
            created_at: self.created_at,
            updated_at: self.updated_at,
            pinned: self.pinned,
            group_id: self.group_id,
        }
    }
}

impl NoteMetadata {
    pub fn duplicate(&self) -> (r: NoteMetadata)
        ensures
            r == *self,
    {
        NoteMetadata {
            id: self.id,
            title: self.title.clone(),
            created_at: self.created_at,
            updated_at: self.updated_at,
            pinned: self.pinned,
            group_id: self.group_id,
            content_length: self.content_length,
        }
    }
}

} // verus!
