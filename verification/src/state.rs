//! The application state: the note list, the group tree, the persistent
//! text, and the loader, owned by one object and mutated only through
//! operations that keep the hierarchy invariant.

use vstd::prelude::*;
use vstd::seq_lib::{lemma_multiset_commutative, to_multiset_build};
use vstd::string::StringExecFns;
use crate::ids::{fresh_uid, Uid};
use crate::notes::{Note, NoteGroup, NoteMetadata};
use crate::order::{notes_sorted, sort_notes_vec};
use crate::performance::{cache_has, metadata_lookup, LazyNoteLoader, LoaderStats};
use crate::text::{trim_copy, trimmed_of};
use crate::time::now_nanos;
use crate::validation::{
    group_creation_errors, group_name_errors, note_creation_errors, parent_change_errors,
    ValidationError, ValidationRules, MAX_GROUP_NAME_LENGTH,
};
use crate::hierarchy::{
    descendant_marks, find_group_index, group_of, groups_wf, has_group, index_of,
    lemma_append_wf, lemma_chain_levels, lemma_index_of, lemma_level_bounds, lemma_remove_wf,
    lemma_reparent_wf, lemma_same_shape_wf, reaches, removed_shape, reparented_shape,
};
use vstd::pervasive::unreached;
use vstd::multiset::Multiset;

verus! {

/// How notes are brought into memory.
#[derive(Debug, Clone, PartialEq, Eq, Structural)]
pub enum LoadMode {
    /// Pick eager or lazy from the collection's size.
    Auto,
    /// Load every note up front.
    Eager,
    /// Load notes page by page.
    Lazy,
}

/// Resolves the requested mode against the collection's size: `Auto`
/// turns lazy only above the threshold.
pub fn choose_load_mode(requested: LoadMode, notes_count: usize, lazy_threshold: usize) -> (r:
    LoadMode)
    ensures
        r == (match requested {
            LoadMode::Auto => if notes_count > lazy_threshold {
                LoadMode::Lazy
            } else {
                LoadMode::Eager
            },
            m => m,
        }),
{
    match requested {
        LoadMode::Auto => {
            if notes_count > lazy_threshold {
                LoadMode::Lazy
            } else {
                LoadMode::Eager
            }
        },
        m => m,
    }
}

/// The note carried at `index`, with its pin flag flipped.
pub open spec fn pin_toggled(base: Note) -> Note {
    Note { pinned: !base.pinned, ..base }
}

/// `n` is `base` after an edit: the title replaced where a non-blank
/// one was given, the content replaced where one was given, and the
/// update time refreshed.
pub open spec fn note_edited(
    n: Note,
    base: Note,
    title: Option<String>,
    content: Option<String>,
    now: i64,
) -> bool {
    &&& n.id == base.id
    &&& n.title@ == (match title {
        Option::Some(t) => if trimmed_of(t@).len() > 0 {
            trimmed_of(t@)
        } else {
            base.title@
        },
        Option::None => base.title@,
    })
    &&& n.content@ == (match content {
        Option::Some(c) => c@,
        Option::None => base.content@,
    })
    &&& n.created_at == base.created_at
    &&& n.updated_at == now
    &&& n.pinned == base.pinned
    &&& n.group_id == base.group_id
}

/// `n` is a note freshly built from these fields: trimmed title, both
/// timestamps at the creation instant, unpinned.
pub open spec fn note_built(
    n: Note,
    id: Uid,
    now: i64,
    title: Seq<char>,
    content: Seq<char>,
    group_id: Option<Uid>,
) -> bool {
    &&& n.id == id
    &&& n.title@ == trimmed_of(title)
    &&& n.content@ == content
    &&& n.created_at == now
    &&& n.updated_at == now
    &&& !n.pinned
    &&& n.group_id == group_id
}

/// No two notes carry the same id.
pub open spec fn notes_ids_unique(s: Seq<Note>) -> bool {
    forall|i: int, j: int| 0 <= i < j < s.len() ==> s[i].id != s[j].id
}

/// The multiset holds exactly one record under this id, namely `n`.
pub open spec fn sole_note_with_id(m: Multiset<Note>, id: Uid, n: Note) -> bool {
    &&& n.id == id
    &&& m.count(n) == 1
    &&& forall|y: Note| y.id == id && y != n ==> m.count(y) == 0
}

/// Law: saving the same note twice with only the content changed keeps
/// exactly one record under its id. The surviving record carries the
/// later content and update instant and every other field of the
/// original note. `s1` and `s2` are the lists after each save, as
/// [`AppState::update_note_with_time`] leaves them: the edited note in
/// place of the old one, in any order.
pub proof fn lemma_idempotent_upsert(
    s0: Seq<Note>,
    s1: Seq<Note>,
    s2: Seq<Note>,
    i1: int,
    n1: Note,
    c1: String,
    t1: i64,
    i2: int,
    n2: Note,
    c2: String,
    t2: i64,
)
    requires
        notes_ids_unique(s0),
        0 <= i1 < s0.len(),
        note_edited(n1, s0[i1], Option::None, Option::Some(c1), t1),
        s1.to_multiset() == s0.update(i1, n1).to_multiset(),
        0 <= i2 < s1.len(),
        s1[i2].id == s0[i1].id,
        note_edited(n2, s1[i2], Option::None, Option::Some(c2), t2),
        s2.to_multiset() == s1.update(i2, n2).to_multiset(),
    ensures
        sole_note_with_id(s2.to_multiset(), s0[i1].id, n2),
        n2.title@ == s0[i1].title@,
        n2.content@ == c2@,
        n2.created_at == s0[i1].created_at,
        n2.updated_at == t2,
        n2.pinned == s0[i1].pinned,
        n2.group_id == s0[i1].group_id,
        forall|k: int| 0 <= k < s2.len() && (#[trigger] s2[k]).id == s0[i1].id ==> s2[k] == n2,
{
    broadcast use vstd::seq_lib::group_to_multiset_ensures;
    broadcast use vstd::multiset::group_multiset_axioms;

    let x = s0[i1].id;
    let a = s0[i1];
    assert(s0.no_duplicates()) by {
        assert forall|i: int, j: int|
            0 <= i < s0.len() && 0 <= j < s0.len() && i != j implies s0[i] != s0[j] by {
            if i < j {
                assert(s0[i].id != s0[j].id);
            } else {
                assert(s0[j].id != s0[i].id);
            }
        }
    }
    s0.lemma_multiset_has_no_duplicates();
    assert(s0.contains(a));
    assert(s0.to_multiset().count(a) == 1);
    assert(sole_note_with_id(s0.to_multiset(), x, a)) by {
        assert forall|y: Note| y.id == x && y != a implies s0.to_multiset().count(y) == 0 by {
            if s0.to_multiset().count(y) > 0 {
                assert(s0.contains(y));
                let j = choose|j: int| 0 <= j < s0.len() && s0[j] == y;
                if j < i1 {
                    assert(s0[j].id != s0[i1].id);
                } else if j > i1 {
                    assert(s0[i1].id != s0[j].id);
                }
                assert(false);
            }
        }
    }
    vstd::seq_lib::to_multiset_update(s0, i1, n1);
    lemma_sole_note_after_edit(s0.to_multiset(), s1.to_multiset(), x, a, n1);
    assert(s1.contains(s1[i2]));
    assert(s1.to_multiset().count(s1[i2]) > 0);
    assert(s1[i2] == n1);
    vstd::seq_lib::to_multiset_update(s1, i2, n2);
    lemma_sole_note_after_edit(s1.to_multiset(), s2.to_multiset(), x, n1, n2);
    assert forall|k: int|
        0 <= k < s2.len() && (#[trigger] s2[k]).id == s0[i1].id implies s2[k] == n2 by {
        assert(s2.contains(s2[k]));
        assert(s2.to_multiset().count(s2[k]) > 0);
    }
}

/// Replacing the sole record under an id by another note with the same
/// id leaves that note as the sole record.
proof fn lemma_sole_note_after_edit(
    m0: Multiset<Note>,
    m1: Multiset<Note>,
    x: Uid,
    a: Note,
    b: Note,
)
    requires
        sole_note_with_id(m0, x, a),
        b.id == x,
        m1 == m0.insert(b).remove(a),
    ensures
        sole_note_with_id(m1, x, b),
{
    broadcast use vstd::multiset::group_multiset_axioms;

    if b == a {
        assert(m1.count(b) == 1);
    } else {
        assert(m0.count(b) == 0);
        assert(m1.count(b) == 1);
    }
    assert forall|y: Note| y.id == x && y != b implies m1.count(y) == 0 by {
        if y == a {
            assert(m1.count(y) == 0);
        } else {
            assert(m0.count(y) == 0);
        }
    }
}

/// The in-memory application state.
#[derive(Debug)]
pub struct AppState {
    pub notes: Vec<Note>,
    pub groups: Vec<NoteGroup>,
    pub persistent_text: String,
    /// Installed when the collection is loaded lazily.
    pub lazy_loader: Option<LazyNoteLoader>,
    pub load_mode: LoadMode,
    /// Above this note count, `Auto` turns lazy.
    pub lazy_threshold: usize,
}

impl AppState {
    /// The state's invariant: the group tree is well formed and small
    /// enough for level arithmetic, and the loader, if any, is sound.
    pub open spec fn wf(&self) -> bool {
        &&& groups_wf(self.groups@)
        &&& self.groups@.len() <= 0x7fff_ffff
        &&& match self.lazy_loader {
            Option::Some(l) => l.wf(),
            Option::None => true,
        }
    }

    /// An empty state: no notes, no groups, eager loading.
    pub fn new() -> (r: AppState)
        ensures
            r.wf(),
            r.notes@.len() == 0,
            r.groups@.len() == 0,
            r.persistent_text@.len() == 0,
            r.lazy_loader is None,
            r.load_mode == LoadMode::Eager,
            r.lazy_threshold == 100,
    {
        AppState {
            notes: Vec::new(),
            groups: Vec::new(),
            persistent_text: String::new(),
            lazy_loader: Option::None,
            load_mode: LoadMode::Eager,
            lazy_threshold: 100,
        }
    }

    /// Sorts the note list: pinned notes first, newest first within
    /// each class.
    pub fn sort_notes(notes: &mut Vec<Note>)
        ensures
            notes_sorted(final(notes)@),
            final(notes)@.to_multiset() == old(notes)@.to_multiset(),
            final(notes)@.len() == old(notes)@.len(),
    {
        sort_notes_vec(notes);
    }

    /// Creates a note under a caller-chosen identifier and creation
    /// instant. Refused exactly when the title or content fails
    /// validation; otherwise the new note joins the sorted list.
    pub fn create_note_with_id(
        &mut self,
        id: Uid,
        now: i64,
        title: String,
        content: String,
        group_id: Option<Uid>,
    ) -> (r: Result<Uid, Vec<ValidationError>>)
        requires
            old(self).wf(),
        ensures
            final(self).wf(),
            final(self).groups == old(self).groups,
            final(self).persistent_text == old(self).persistent_text,
            final(self).lazy_loader == old(self).lazy_loader,
            final(self).load_mode == old(self).load_mode,
            final(self).lazy_threshold == old(self).lazy_threshold,
            match r {
                Result::Ok(rid) => {
                    &&& rid == id
                    &&& note_creation_errors(title@, content@).len() == 0
                    &&& final(self).notes@.len() == old(self).notes@.len() + 1
                    &&& notes_sorted(final(self).notes@)
                    &&& exists|n: Note|
                        note_built(n, id, now, title@, content@, group_id) && final(self).notes@.to_multiset() == old(self).notes@.to_multiset().insert(n)
                },
                Result::Err(e) => {
                    &&& e@ == note_creation_errors(title@, content@)
                    &&& e@.len() > 0
                    &&& final(self).notes == old(self).notes
                },
            },
    {
        let validation = ValidationRules::validate_note_creation(title.as_str(), content.as_str());
        if !validation.is_valid {
            return Result::Err(validation.errors);
        }
        let note = Note {
            id,
            title: trim_copy(title.as_str()),
            content,
            created_at: now,
            updated_at: now,
            pinned: false,
            group_id,
        };
        let ghost built = note;
        let ghost before = self.notes@;
        self.notes.push(note);
        proof {
            to_multiset_build(before, built);
        }
        sort_notes_vec(&mut self.notes);
        Result::Ok(id)
    }

    /// Creates a note from a title, content and optional group. The
    /// identifier and the creation instant are drawn here, so the
    /// contract fixes everything but their values.
    pub fn create_note(&mut self, title: String, content: String, group_id: Option<Uid>) -> (r:
        Result<Uid, Vec<ValidationError>>)
        requires
            old(self).wf(),
        ensures
            final(self).wf(),
            final(self).groups == old(self).groups,
            final(self).persistent_text == old(self).persistent_text,
            final(self).lazy_loader == old(self).lazy_loader,
            final(self).load_mode == old(self).load_mode,
            final(self).lazy_threshold == old(self).lazy_threshold,
            match r {
                Result::Ok(rid) => {
                    &&& note_creation_errors(title@, content@).len() == 0
                    &&& final(self).notes@.len() == old(self).notes@.len() + 1
                    &&& notes_sorted(final(self).notes@)
                    &&& exists|n: Note, t: i64|
                        note_built(n, rid, t, title@, content@, group_id) && final(self).notes@.to_multiset() == old(self).notes@.to_multiset().insert(n)
                },
                Result::Err(e) => {
                    &&& e@ == note_creation_errors(title@, content@)
                    &&& e@.len() > 0
                    &&& final(self).notes == old(self).notes
                },
            },
    {
        let id = fresh_uid();
        let now = now_nanos();
        self.create_note_with_id(id, now, title, content, group_id)
    }

    /// Removes the note at an index; an out-of-range index changes
    /// nothing. Never fails.
    pub fn delete_note(&mut self, index: usize) -> (r: Result<(), Vec<ValidationError>>)
        requires
            old(self).wf(),
        ensures
            final(self).wf(),
            r is Ok,
            final(self).groups == old(self).groups,
            final(self).persistent_text == old(self).persistent_text,
            final(self).lazy_loader == old(self).lazy_loader,
            final(self).load_mode == old(self).load_mode,
            final(self).lazy_threshold == old(self).lazy_threshold,
            index >= old(self).notes@.len() ==> final(self).notes == old(self).notes,
            index < old(self).notes@.len() ==> {
                &&& final(self).notes@.len() == old(self).notes@.len() - 1
                &&& final(self).notes@.to_multiset() == old(self).notes@.remove(
                    index as int,
                ).to_multiset()
                &&& notes_sorted(final(self).notes@)
            },
    {
        if index >= self.notes.len() {
            return Result::Ok(());
        }
        self.notes.remove(index);
        sort_notes_vec(&mut self.notes);
        Result::Ok(())
    }

    /// Edits the note at an index under a caller-chosen instant: the
    /// title is replaced where a non-blank one is given, the content
    /// where one is given, and the update time is refreshed. An
    /// out-of-range index changes nothing. Never fails.
    pub fn update_note_with_time(
        &mut self,
        index: usize,
        title: Option<String>,
        content: Option<String>,
        now: i64,
    ) -> (r: Result<(), Vec<ValidationError>>)
        requires
            old(self).wf(),
        ensures
            final(self).wf(),
            r is Ok,
            final(self).groups == old(self).groups,
            final(self).persistent_text == old(self).persistent_text,
            final(self).lazy_loader == old(self).lazy_loader,
            final(self).load_mode == old(self).load_mode,
            final(self).lazy_threshold == old(self).lazy_threshold,
            index >= old(self).notes@.len() ==> final(self).notes == old(self).notes,
            index < old(self).notes@.len() ==> {
                &&& final(self).notes@.len() == old(self).notes@.len()
                &&& notes_sorted(final(self).notes@)
                &&& exists|n: Note|
                    note_edited(n, old(self).notes@[index as int], title, content, now) && final(self).notes@.to_multiset() == old(self).notes@.update(
                        index as int,
                        n,
                    ).to_multiset()
            },
    {
        if index >= self.notes.len() {
            return Result::Ok(());
        }
        let ghost before = self.notes@;
        let ghost given_title = title;
        let ghost given_content = content;
        let base = self.notes.remove(index);
        let new_title = match title {
            Option::Some(t) => {
                let trimmed = trim_copy(t.as_str());
                if trimmed.as_str().is_empty() {
                    base.title
                } else {
                    trimmed
                }
            },
            Option::None => base.title,
        };
        let new_content = match content {
            Option::Some(c) => c,
            Option::None => base.content,
        };
        let updated = Note {
            id: base.id,
            title: new_title,
            content: new_content,
            created_at: base.created_at,
            updated_at: now,
            pinned: base.pinned,
            group_id: base.group_id,
        };
        let ghost edited = updated;
        self.notes.insert(index, updated);
        proof {
            assert(self.notes@ =~= before.update(index as int, edited));
            assert(note_edited(edited, before[index as int], given_title, given_content, now));
        }
        sort_notes_vec(&mut self.notes);
        Result::Ok(())
    }

    /// Edits the note at an index; the update instant is read from the
    /// clock here, so the contract fixes everything but its value.
    pub fn update_note(&mut self, index: usize, title: Option<String>, content: Option<String>)
        -> (r: Result<(), Vec<ValidationError>>)
        requires
            old(self).wf(),
        ensures
            final(self).wf(),
            r is Ok,
            final(self).groups == old(self).groups,
            final(self).persistent_text == old(self).persistent_text,
            final(self).lazy_loader == old(self).lazy_loader,
            final(self).load_mode == old(self).load_mode,
            final(self).lazy_threshold == old(self).lazy_threshold,
            index >= old(self).notes@.len() ==> final(self).notes == old(self).notes,
            index < old(self).notes@.len() ==> {
                &&& final(self).notes@.len() == old(self).notes@.len()
                &&& notes_sorted(final(self).notes@)
                &&& exists|n: Note, t: i64|
                    note_edited(n, old(self).notes@[index as int], title, content, t) && final(self).notes@.to_multiset() == old(self).notes@.update(
                        index as int,
                        n,
                    ).to_multiset()
            },
    {
        let now = now_nanos();
        self.update_note_with_time(index, title, content, now)
    }

    /// Flips the pin flag of the note at an index; an out-of-range
    /// index changes nothing. Never fails.
    pub fn toggle_pin(&mut self, index: usize) -> (r: Result<(), Vec<ValidationError>>)
        requires
            old(self).wf(),
        ensures
            final(self).wf(),
            r is Ok,
            final(self).groups == old(self).groups,
            final(self).persistent_text == old(self).persistent_text,
            final(self).lazy_loader == old(self).lazy_loader,
            final(self).load_mode == old(self).load_mode,
            final(self).lazy_threshold == old(self).lazy_threshold,
            index >= old(self).notes@.len() ==> final(self).notes == old(self).notes,
            index < old(self).notes@.len() ==> {
                &&& final(self).notes@.len() == old(self).notes@.len()
                &&& notes_sorted(final(self).notes@)
                &&& final(self).notes@.to_multiset() == old(self).notes@.update(
                    index as int,
                    pin_toggled(old(self).notes@[index as int]),
                ).to_multiset()
            },
    {
        if index >= self.notes.len() {
            return Result::Ok(());
        }
        let ghost before = self.notes@;
        let base = self.notes.remove(index);
        let flipped = Note {
            id: base.id,
            title: base.title,
            content: base.content,
            created_at: base.created_at,
            updated_at: base.updated_at,
            pinned: !base.pinned,
            group_id: base.group_id,
        };
        self.notes.insert(index, flipped);
        proof {
            assert(self.notes@ =~= before.update(
                index as int,
                pin_toggled(before[index as int]),
            ));
        }
        sort_notes_vec(&mut self.notes);
        Result::Ok(())
    }

    /// A copy of the content of the note at an index, if the index is
    /// in range.
    pub fn get_note_content(&self, index: usize) -> (r: Option<String>)
        ensures
            match r {
                Option::Some(c) => index < self.notes@.len() && c@ == self.notes@[
                    index as int
                ].content@,
                Option::None => index >= self.notes@.len(),
            },
    {
        if index < self.notes.len() {
            Option::Some(self.notes[index].content.clone())
        } else {
            Option::None
        }
    }

    /// Appends the content of the note at an index to the persistent
    /// text; an out-of-range index changes nothing. Never fails.
    pub fn append_note_to_persistent(&mut self, index: usize) -> (r: Result<
        (),
        Vec<ValidationError>,
    >)
        requires
            old(self).wf(),
        ensures
            final(self).wf(),
            r is Ok,
            final(self).notes == old(self).notes,
            final(self).groups == old(self).groups,
            final(self).lazy_loader == old(self).lazy_loader,
            final(self).load_mode == old(self).load_mode,
            final(self).lazy_threshold == old(self).lazy_threshold,
            index < old(self).notes@.len() ==> final(self).persistent_text@ == old(self).persistent_text@ + old(self).notes@[index as int].content@,
            index >= old(self).notes@.len() ==> final(self).persistent_text == old(self).persistent_text,
    {
        if index < self.notes.len() {
            let content = self.notes[index].content.clone();
            self.persistent_text.append(content.as_str());
        }
        Result::Ok(())
    }

    /// Takes a freshly loaded page into the note list, keeping it sorted.
    pub fn add_loaded_notes(&mut self, new_notes: Vec<Note>)
        requires
            old(self).wf(),
        ensures
            final(self).wf(),
            final(self).groups == old(self).groups,
            final(self).persistent_text == old(self).persistent_text,
            final(self).lazy_loader == old(self).lazy_loader,
            final(self).load_mode == old(self).load_mode,
            final(self).lazy_threshold == old(self).lazy_threshold,
            final(self).notes@.len() == old(self).notes@.len() + new_notes@.len(),
            final(self).notes@.to_multiset() == old(self).notes@.to_multiset().add(
                new_notes@.to_multiset(),
            ),
            notes_sorted(final(self).notes@),
    {
        let ghost before = self.notes@;
        let ghost added = new_notes@;
        let mut more = new_notes;
        self.notes.append(&mut more);
        proof {
            lemma_multiset_commutative(before, added);
        }
        sort_notes_vec(&mut self.notes);
    }

    /// The cached metadata of the note at an index, when a loader is
    /// installed; a pure lookup.
    pub fn get_note_metadata(&self, index: usize) -> (r: Option<&NoteMetadata>)
        requires
            self.wf(),
        ensures
            match self.lazy_loader {
                Option::None => r is None,
                Option::Some(l) => match r {
                    Option::Some(m) => index < l.total_notes && index < l.note_ids@.len()
                        && metadata_lookup(l.metadata_cache@, l.note_ids@[index as int])
                        == Option::Some(*m),
                    Option::None => index >= l.total_notes || index >= l.note_ids@.len()
                        || metadata_lookup(l.metadata_cache@, l.note_ids@[index as int]) is None,
                },
            },
    {
        match &self.lazy_loader {
            Option::Some(loader) => loader.get_note_metadata(index),
            Option::None => Option::None,
        }
    }

    /// Whether the note at an index is resident: in the loader's cache
    /// when one is installed, in the eager list otherwise.
    pub fn is_note_cached(&self, index: usize) -> (r: bool)
        requires
            self.wf(),
        ensures
            r == match self.lazy_loader {
                Option::Some(l) => cache_has(l.loaded_notes@, index),
                Option::None => index < self.notes@.len(),
            },
    {
        match &self.lazy_loader {
            Option::Some(loader) => loader.is_note_cached(index),
            Option::None => index < self.notes.len(),
        }
    }

    /// How many notes exist, loaded or not.
    pub fn total_notes_count(&self) -> (r: usize)
        ensures
            r == match self.lazy_loader {
                Option::Some(l) => l.total_notes as nat,
                Option::None => self.notes@.len(),
            },
    {
        match &self.lazy_loader {
            Option::Some(loader) => loader.total_count(),
            Option::None => self.notes.len(),
        }
    }

    /// The loader's progress counters, when one is installed.
    pub fn get_loading_stats(&self) -> (r: Option<LoaderStats>)
        ensures
            match self.lazy_loader {
                Option::Some(l) => match r {
                    Option::Some(s) => s.total_notes == l.total_notes && s.loaded_notes
                        == l.loaded_notes@.len() && s.current_page == l.current_page,
                    Option::None => false,
                },
                Option::None => r is None,
            },
    {
        match &self.lazy_loader {
            Option::Some(loader) => Option::Some(loader.get_stats()),
            Option::None => Option::None,
        }
    }
}

/// The group, with its collapsed flag flipped.
pub open spec fn collapse_toggled(g: NoteGroup) -> NoteGroup {
    NoteGroup { collapsed: !g.collapsed, ..g }
}

/// `g` is a group freshly built from these fields: trimmed name,
/// expanded, level one above the parent's (zero at a root).
pub open spec fn group_built(
    g: NoteGroup,
    id: Uid,
    name: Seq<char>,
    parent_id: Option<Uid>,
    groups: Seq<NoteGroup>,
) -> bool {
    &&& g.id == id
    &&& g.name@ == trimmed_of(name)
    &&& !g.collapsed
    &&& g.parent_id == parent_id
    &&& g.level == (match parent_id {
        Option::None => 0int,
        Option::Some(p) => group_of(groups, p).level + 1,
    })
}

fn opt_uid_eq(a: Option<Uid>, b: Option<Uid>) -> (r: bool)
    ensures
        r == (a == b),
{
    match (a, b) {
        (Option::None, Option::None) => true,
        (Option::Some(x), Option::Some(y)) => x.value == y.value,
        _ => false,
    }
}

fn uid_vec_contains(v: &Vec<Uid>, x: Uid) -> (r: bool)
    ensures
        r == v@.contains(x),
{
    let mut i: usize = 0;
    while i < v.len()
        invariant
            i <= v@.len(),
            forall|k: int| 0 <= k < i ==> v@[k] != x,
        decreases v@.len() - i,
    {
        if v[i].value == x.value {
            return true;
        }
        i = i + 1;
    }
    false
}

impl AppState {
    /// Flips the collapsed flag of the group carrying `group_id` and
    /// changes nothing else; an unknown id changes nothing. Never fails.
    pub fn toggle_group_collapsed(&mut self, group_id: Uid) -> (r: Result<
        (),
        Vec<ValidationError>,
    >)
        requires
            old(self).wf(),
        ensures
            final(self).wf(),
            r is Ok,
            final(self).notes == old(self).notes,
            final(self).persistent_text == old(self).persistent_text,
            final(self).lazy_loader == old(self).lazy_loader,
            final(self).load_mode == old(self).load_mode,
            final(self).lazy_threshold == old(self).lazy_threshold,
            !has_group(old(self).groups@, group_id) ==> final(self).groups == old(self).groups,
            has_group(old(self).groups@, group_id) ==> final(self).groups@ == old(self).groups@.update(
                index_of(old(self).groups@, group_id),
                collapse_toggled(group_of(old(self).groups@, group_id)),
            ),
    {
        match find_group_index(&self.groups, group_id) {
            Option::None => Result::Ok(()),
            Option::Some(k) => {
                proof {
                    lemma_index_of(self.groups@, group_id, k as int);
                }
                let ghost before = self.groups@;
                let g = self.groups.remove(k);
                let flipped = NoteGroup {
                    id: g.id,
                    name: g.name,
                    collapsed: !g.collapsed,
                    parent_id: g.parent_id,
                    level: g.level,
                };
                self.groups.insert(k, flipped);
                proof {
                    assert(self.groups@ =~= before.update(
                        k as int,
                        collapse_toggled(before[k as int]),
                    ));
                    lemma_same_shape_wf(before, self.groups@);
                }
                Result::Ok(())
            },
        }
    }

    /// Creates a group under a caller-chosen identifier. Refused
    /// exactly when the name or parent fails validation, or the
    /// identifier collides; otherwise the group joins the collection
    /// at a level one above its parent's, and every selected note that
    /// had no group yet is moved into it.
    pub fn create_group_with_id(
        &mut self,
        id: Uid,
        name: String,
        parent_id: Option<Uid>,
        selected_notes: Vec<Uid>,
    ) -> (r: Result<Uid, Vec<ValidationError>>)
        requires
            old(self).wf(),
            old(self).groups@.len() < 0x7fff_ffff,
        ensures
            final(self).wf(),
            final(self).persistent_text == old(self).persistent_text,
            final(self).lazy_loader == old(self).lazy_loader,
            final(self).load_mode == old(self).load_mode,
            final(self).lazy_threshold == old(self).lazy_threshold,
            match r {
                Result::Ok(rid) => {
                    &&& rid == id
                    &&& group_creation_errors(name@, parent_id, old(self).groups@).len() == 0
                    &&& !has_group(old(self).groups@, id)
                    &&& exists|g: NoteGroup|
                        #[trigger] group_built(g, id, name@, parent_id, old(self).groups@)
                            && final(self).groups@ == old(self).groups@.push(g)
                    &&& final(self).notes@.len() == old(self).notes@.len()
                    &&& forall|i: int|
                        0 <= i < old(self).notes@.len() ==> (#[trigger] final(self).notes@[i])
                            == (if selected_notes@.contains(old(self).notes@[i].id) && old(self).notes@[i].group_id is None {
                            Note { group_id: Option::Some(id), ..old(self).notes@[i] }
                        } else {
                            old(self).notes@[i]
                        })
                },
                Result::Err(e) => {
                    &&& final(self).groups == old(self).groups
                    &&& final(self).notes == old(self).notes
                    &&& {
                        ||| (e@ == group_creation_errors(name@, parent_id, old(self).groups@)
                            && e@.len() > 0)
                        ||| (group_creation_errors(name@, parent_id, old(self).groups@).len()
                            == 0 && has_group(old(self).groups@, id) && e@ == seq![
                            ValidationError::DuplicateId(id),
                        ])
                    }
                },
            },
    {
        let validation = ValidationRules::validate_group_creation(
            name.as_str(),
            parent_id,
            &self.groups,
        );
        if !validation.is_valid {
            return Result::Err(validation.errors);
        }
        match find_group_index(&self.groups, id) {
            Option::Some(_) => {
                let mut errors: Vec<ValidationError> = Vec::new();
                errors.push(ValidationError::DuplicateId(id));
                proof {
                    assert(errors@ =~= seq![ValidationError::DuplicateId(id)]);
                }
                return Result::Err(errors);
            },
            Option::None => {},
        }
        let level: u32 = match parent_id {
            Option::Some(p) => {
                match find_group_index(&self.groups, p) {
                    Option::Some(pk) => {
                        proof {
                            lemma_index_of(self.groups@, p, pk as int);
                        }
                        self.groups[pk].level + 1
                    },
                    Option::None => unreached(),
                }
            },
            Option::None => 0,
        };
        let group = NoteGroup {
            id,
            name: trim_copy(name.as_str()),
            collapsed: false,
            parent_id,
            level,
        };
        let ghost built = group;
        proof {
            lemma_append_wf(self.groups@, built);
        }
        self.groups.push(group);
        let ghost old_notes = self.notes@;
        let mut new_notes: Vec<Note> = Vec::new();
        let mut i: usize = 0;
        while i < self.notes.len()
            invariant
                old_notes == self.notes@,
                i <= old_notes.len(),
                new_notes@.len() == i,
                forall|k: int|
                    0 <= k < i ==> (#[trigger] new_notes@[k]) == (if selected_notes@.contains(
                        old_notes[k].id,
                    ) && old_notes[k].group_id is None {
                        Note { group_id: Option::Some(id), ..old_notes[k] }
                    } else {
                        old_notes[k]
                    }),
            decreases old_notes.len() - i,
        {
            let n = &self.notes[i];
            let selected = uid_vec_contains(&selected_notes, n.id);
            let ungrouped = match n.group_id {
                Option::None => true,
                Option::Some(_) => false,
            };
            if selected && ungrouped {
                new_notes.push(
                    Note {
                        id: n.id,
                        title: n.title.clone(),
                        content: n.content.clone(),
                        created_at: n.created_at,
                        updated_at: n.updated_at,
                        pinned: n.pinned,
                        group_id: Option::Some(id),
                    },
                );
            } else {
                new_notes.push(n.duplicate());
            }
            i = i + 1;
        }
        self.notes = new_notes;
        proof {
            assert(group_built(built, id, name@, parent_id, old(self).groups@));
            assert(self.groups@ == old(self).groups@.push(built));
        }
        Result::Ok(id)
    }

    /// Creates a group from a name, optional parent and an initial
    /// selection of notes. The identifier is drawn here, so the
    /// contract fixes everything but its value.
    pub fn create_group(&mut self, name: String, parent_id: Option<Uid>, selected_notes: Vec<Uid>)
        -> (r: Result<Uid, Vec<ValidationError>>)
        requires
            old(self).wf(),
            old(self).groups@.len() < 0x7fff_ffff,
        ensures
            final(self).wf(),
            final(self).persistent_text == old(self).persistent_text,
            final(self).lazy_loader == old(self).lazy_loader,
            final(self).load_mode == old(self).load_mode,
            final(self).lazy_threshold == old(self).lazy_threshold,
            match r {
                Result::Ok(rid) => {
                    &&& group_creation_errors(name@, parent_id, old(self).groups@).len() == 0
                    &&& !has_group(old(self).groups@, rid)
                    &&& exists|g: NoteGroup|
                        #[trigger] group_built(g, rid, name@, parent_id, old(self).groups@)
                            && final(self).groups@ == old(self).groups@.push(g)
                    &&& final(self).notes@.len() == old(self).notes@.len()
                    &&& forall|i: int|
                        0 <= i < old(self).notes@.len() ==> (#[trigger] final(self).notes@[i])
                            == (if selected_notes@.contains(old(self).notes@[i].id) && old(self).notes@[i].group_id is None {
                            Note { group_id: Option::Some(rid), ..old(self).notes@[i] }
                        } else {
                            old(self).notes@[i]
                        })
                },
                Result::Err(e) => {
                    &&& final(self).groups == old(self).groups
                    &&& final(self).notes == old(self).notes
                    &&& {
                        ||| (e@ == group_creation_errors(name@, parent_id, old(self).groups@)
                            && e@.len() > 0)
                        ||| (group_creation_errors(name@, parent_id, old(self).groups@).len()
                            == 0 && e@.len() == 1 && e@[0] is DuplicateId)
                    }
                },
            },
    {
        let id = fresh_uid();
        self.create_group_with_id(id, name, parent_id, selected_notes)
    }

    /// Deletes the group carrying `group_id`: its notes and child
    /// groups move to its parent (or to the root when it had none),
    /// the levels of its whole subtree drop by one, and the group
    /// leaves the collection. An unknown id changes nothing. Never
    /// fails.
    pub fn delete_group(&mut self, group_id: Uid) -> (r: Result<(), Vec<ValidationError>>)
        requires
            old(self).wf(),
        ensures
            final(self).wf(),
            r is Ok,
            final(self).persistent_text == old(self).persistent_text,
            final(self).lazy_loader == old(self).lazy_loader,
            final(self).load_mode == old(self).load_mode,
            final(self).lazy_threshold == old(self).lazy_threshold,
            !has_group(old(self).groups@, group_id) ==> final(self).groups == old(self).groups
                && final(self).notes == old(self).notes,
            has_group(old(self).groups@, group_id) ==> {
                let gi = index_of(old(self).groups@, group_id);
                let parent = old(self).groups@[gi].parent_id;
                &&& removed_shape(old(self).groups@, final(self).groups@, gi)
                &&& forall|j: int|
                    0 <= j < final(self).groups@.len() ==> {
                        let oj = if j < gi {
                            j
                        } else {
                            j + 1
                        };
                        (#[trigger] final(self).groups@[j]).name == old(self).groups@[oj].name
                            && final(self).groups@[j].collapsed == old(self).groups@[oj].collapsed
                    }
                &&& !has_group(final(self).groups@, group_id)
                &&& final(self).notes@.len() == old(self).notes@.len()
                &&& forall|i: int|
                    0 <= i < old(self).notes@.len() ==> (#[trigger] final(self).notes@[i]) == (
                    if old(self).notes@[i].group_id == Option::Some(group_id) {
                        Note { group_id: parent, ..old(self).notes@[i] }
                    } else {
                        old(self).notes@[i]
                    })
            },
    {
        let gi = match find_group_index(&self.groups, group_id) {
            Option::None => {
                return Result::Ok(());
            },
            Option::Some(k) => k,
        };
        proof {
            lemma_index_of(self.groups@, group_id, gi as int);
        }
        let parent = self.groups[gi].parent_id;
        let ghost old_groups = self.groups@;
        let ghost old_notes = self.notes@;

        let mut new_notes: Vec<Note> = Vec::new();
        let mut i: usize = 0;
        while i < self.notes.len()
            invariant
                old_notes == self.notes@,
                i <= old_notes.len(),
                new_notes@.len() == i,
                forall|k: int|
                    0 <= k < i ==> (#[trigger] new_notes@[k]) == (if old_notes[k].group_id
                        == Option::Some(group_id) {
                        Note { group_id: parent, ..old_notes[k] }
                    } else {
                        old_notes[k]
                    }),
            decreases old_notes.len() - i,
        {
            let n = &self.notes[i];
            let in_group = match n.group_id {
                Option::Some(g) => g.value == group_id.value,
                Option::None => false,
            };
            if in_group {
                new_notes.push(
                    Note {
                        id: n.id,
                        title: n.title.clone(),
                        content: n.content.clone(),
                        created_at: n.created_at,
                        updated_at: n.updated_at,
                        pinned: n.pinned,
                        group_id: parent,
                    },
                );
            } else {
                new_notes.push(n.duplicate());
            }
            i = i + 1;
        }
        self.notes = new_notes;

        let marks = descendant_marks(&self.groups, group_id);
        let mut new_groups: Vec<NoteGroup> = Vec::new();
        let mut j: usize = 0;
        while j < self.groups.len()
            invariant
                groups_wf(old_groups),
                old_groups == self.groups@,
                gi < old_groups.len(),
                old_groups[gi as int].id == group_id,
                old_groups[gi as int].parent_id == parent,
                index_of(old_groups, group_id) == gi,
                marks@.len() == old_groups.len(),
                forall|k: int|
                    0 <= k < old_groups.len() ==> marks@[k] == reaches(
                        old_groups,
                        old_groups[k].id,
                        group_id,
                    ),
                j <= old_groups.len(),
                new_groups@.len() == (if j <= gi {
                    j as int
                } else {
                    j - 1
                }),
                forall|k: int|
                    0 <= k < new_groups@.len() ==> {
                        let oj = if k < gi {
                            k
                        } else {
                            k + 1
                        };
                        &&& (#[trigger] new_groups@[k]).id == old_groups[oj].id
                        &&& new_groups@[k].name == old_groups[oj].name
                        &&& new_groups@[k].collapsed == old_groups[oj].collapsed
                        &&& new_groups@[k].parent_id == (if old_groups[oj].parent_id
                            == Option::Some(group_id) {
                            parent
                        } else {
                            old_groups[oj].parent_id
                        })
                        &&& new_groups@[k].level == (if reaches(
                            old_groups,
                            old_groups[oj].id,
                            group_id,
                        ) {
                            old_groups[oj].level - 1
                        } else {
                            old_groups[oj].level as int
                        })
                    },
            decreases old_groups.len() - j,
        {
            if j != gi {
                let g = &self.groups[j];
                let new_parent = match g.parent_id {
                    Option::Some(q) => if q.value == group_id.value {
                        parent
                    } else {
                        Option::Some(q)
                    },
                    Option::None => Option::None,
                };
                let new_level: u32 = if marks[j] {
                    proof {
                        lemma_index_of(old_groups, old_groups[j as int].id, j as int);
                        assert(old_groups[j as int].id != group_id);
                        lemma_chain_levels(
                            old_groups,
                            old_groups[j as int].id,
                            group_id,
                            old_groups.len() as nat,
                        );
                    }
                    g.level - 1
                } else {
                    g.level
                };
                new_groups.push(
                    NoteGroup {
                        id: g.id,
                        name: g.name.clone(),
                        collapsed: g.collapsed,
                        parent_id: new_parent,
                        level: new_level,
                    },
                );
            }
            j = j + 1;
        }
        proof {
            lemma_remove_wf(old_groups, new_groups@, gi as int);
        }
        self.groups = new_groups;
        Result::Ok(())
    }

    /// Renames and, where asked, reparents the group carrying
    /// `group_id`. A move is refused when the new parent is missing or
    /// would close a cycle, and the name must pass validation; a
    /// refused call changes nothing. On a real move the group's level
    /// becomes one above its new parent's and its whole subtree shifts
    /// with it.
    pub fn update_group(&mut self, group_id: Uid, name: String, parent_id: Option<Uid>) -> (r:
        Result<(), Vec<ValidationError>>)
        requires
            old(self).wf(),
        ensures
            final(self).wf(),
            final(self).notes == old(self).notes,
            final(self).persistent_text == old(self).persistent_text,
            final(self).lazy_loader == old(self).lazy_loader,
            final(self).load_mode == old(self).load_mode,
            final(self).lazy_threshold == old(self).lazy_threshold,
            match r {
                Result::Err(e) => {
                    &&& final(self).groups == old(self).groups
                    &&& {
                        ||| (e@ == parent_change_errors(group_id, parent_id, old(self).groups@)
                            && e@.len() > 0)
                        ||| (parent_change_errors(group_id, parent_id, old(self).groups@).len()
                            == 0 && e@ == group_name_errors(name@) && e@.len() > 0)
                        ||| (parent_change_errors(group_id, parent_id, old(self).groups@).len()
                            == 0 && group_name_errors(name@).len() == 0 && !has_group(
                            old(self).groups@,
                            group_id,
                        ) && e@ == seq![ValidationError::GroupNotFound(group_id)])
                    }
                },
                Result::Ok(u) => {
                    &&& parent_change_errors(group_id, parent_id, old(self).groups@).len() == 0
                    &&& group_name_errors(name@).len() == 0
                    &&& has_group(old(self).groups@, group_id)
                    &&& {
                        let gi = index_of(old(self).groups@, group_id);
                        let old_g = old(self).groups@[gi];
                        let new_level = (match parent_id {
                            Option::None => 0int,
                            Option::Some(p) => group_of(old(self).groups@, p).level + 1,
                        });
                        &&& final(self).groups@.len() == old(self).groups@.len()
                        &&& forall|j: int|
                            0 <= j < old(self).groups@.len() ==> (#[trigger] final(self).groups@[j]).id == old(self).groups@[j].id && final(self).groups@[j].collapsed == old(self).groups@[j].collapsed
                        &&& final(self).groups@[gi].name@ == trimmed_of(name@)
                        &&& forall|j: int|
                            0 <= j < old(self).groups@.len() && j != gi ==> (#[trigger] final(self).groups@[j]).name == old(self).groups@[j].name
                        &&& final(self).groups@[gi].parent_id == parent_id
                        &&& forall|j: int|
                            0 <= j < old(self).groups@.len() && j != gi ==> (#[trigger] final(self).groups@[j]).parent_id == old(self).groups@[j].parent_id
                        &&& (old_g.parent_id == parent_id ==> forall|j: int|
                            0 <= j < old(self).groups@.len() ==> (#[trigger] final(self).groups@[j]).level == old(self).groups@[j].level)
                        &&& (old_g.parent_id != parent_id ==> {
                            &&& final(self).groups@[gi].level == new_level
                            &&& forall|j: int|
                                0 <= j < old(self).groups@.len() && j != gi ==> (
                                #[trigger] final(self).groups@[j]).level == (if reaches(
                                    old(self).groups@,
                                    old(self).groups@[j].id,
                                    group_id,
                                ) {
                                    old(self).groups@[j].level + new_level - old_g.level
                                } else {
                                    old(self).groups@[j].level as int
                                })
                        })
                    }
                },
            },
    {
        let parent_validation = ValidationRules::validate_group_parent_change(
            group_id,
            parent_id,
            &self.groups,
        );
        if !parent_validation.is_valid {
            return Result::Err(parent_validation.errors);
        }
        let trimmed = trim_copy(name.as_str());
        if trimmed.as_str().is_empty() {
            let mut errors: Vec<ValidationError> = Vec::new();
            errors.push(ValidationError::EmptyGroupName);
            proof {
                assert(errors@ =~= group_name_errors(name@));
            }
            return Result::Err(errors);
        }
        if name.as_str().len() > MAX_GROUP_NAME_LENGTH {
            let mut errors: Vec<ValidationError> = Vec::new();
            errors.push(ValidationError::GroupNameTooLong(name.as_str().len()));
            proof {
                assert(errors@ =~= group_name_errors(name@));
            }
            return Result::Err(errors);
        }
        let gi = match find_group_index(&self.groups, group_id) {
            Option::None => {
                let mut errors: Vec<ValidationError> = Vec::new();
                errors.push(ValidationError::GroupNotFound(group_id));
                proof {
                    assert(errors@ =~= seq![ValidationError::GroupNotFound(group_id)]);
                }
                return Result::Err(errors);
            },
            Option::Some(k) => k,
        };
        proof {
            lemma_index_of(self.groups@, group_id, gi as int);
        }
        let old_parent = self.groups[gi].parent_id;
        let old_level = self.groups[gi].level;
        let new_level: u32 = match parent_id {
            Option::Some(p) => {
                match find_group_index(&self.groups, p) {
                    Option::Some(pk) => {
                        proof {
                            lemma_index_of(self.groups@, p, pk as int);
                            lemma_level_bounds(self.groups@, pk as int);
                        }
                        self.groups[pk].level + 1
                    },
                    Option::None => unreached(),
                }
            },
            Option::None => 0,
        };
        let ghost old_groups = self.groups@;
        let parent_changed = !opt_uid_eq(old_parent, parent_id);
        if !parent_changed {
            let mut new_groups: Vec<NoteGroup> = Vec::new();
            let mut j: usize = 0;
            while j < self.groups.len()
                invariant
                    old_groups == self.groups@,
                    gi < old_groups.len(),
                    j <= old_groups.len(),
                    new_groups@.len() == j,
                    trimmed@ == trimmed_of(name@),
                    forall|k: int|
                        0 <= k < j ==> {
                            &&& (#[trigger] new_groups@[k]).id == old_groups[k].id
                            &&& new_groups@[k].collapsed == old_groups[k].collapsed
                            &&& new_groups@[k].parent_id == old_groups[k].parent_id
                            &&& new_groups@[k].level == old_groups[k].level
                            &&& (k == gi ==> new_groups@[k].name@ == trimmed_of(name@))
                            &&& (k != gi ==> new_groups@[k].name == old_groups[k].name)
                        },
                decreases old_groups.len() - j,
            {
                let g = &self.groups[j];
                let new_name = if j == gi {
                    trimmed.clone()
                } else {
                    g.name.clone()
                };
                new_groups.push(
                    NoteGroup {
                        id: g.id,
                        name: new_name,
                        collapsed: g.collapsed,
                        parent_id: g.parent_id,
                        level: g.level,
                    },
                );
                j = j + 1;
            }
            proof {
                lemma_same_shape_wf(old_groups, new_groups@);
            }
            self.groups = new_groups;
            return Result::Ok(());
        }
        let marks = descendant_marks(&self.groups, group_id);
        let mut new_groups: Vec<NoteGroup> = Vec::new();
        let mut j: usize = 0;
        while j < self.groups.len()
            invariant
                groups_wf(old_groups),
                old_groups.len() <= 0x7fff_ffff,
                old_groups == self.groups@,
                gi < old_groups.len(),
                old_groups[gi as int].id == group_id,
                old_groups[gi as int].level == old_level,
                index_of(old_groups, group_id) == gi,
                new_level <= old_groups.len(),
                match parent_id {
                    Option::None => new_level == 0,
                    Option::Some(p) => has_group(old_groups, p) && !reaches(
                        old_groups,
                        p,
                        group_id,
                    ) && new_level == group_of(old_groups, p).level + 1,
                },
                marks@.len() == old_groups.len(),
                forall|k: int|
                    0 <= k < old_groups.len() ==> marks@[k] == reaches(
                        old_groups,
                        old_groups[k].id,
                        group_id,
                    ),
                j <= old_groups.len(),
                new_groups@.len() == j,
                trimmed@ == trimmed_of(name@),
                forall|k: int|
                    0 <= k < j ==> {
                        &&& (#[trigger] new_groups@[k]).id == old_groups[k].id
                        &&& new_groups@[k].collapsed == old_groups[k].collapsed
                        &&& (k == gi ==> new_groups@[k].name@ == trimmed_of(name@)
                            && new_groups@[k].parent_id == parent_id && new_groups@[k].level
                            == new_level)
                        &&& (k != gi ==> new_groups@[k].name == old_groups[k].name
                            && new_groups@[k].parent_id == old_groups[k].parent_id
                            && new_groups@[k].level == (if reaches(
                            old_groups,
                            old_groups[k].id,
                            group_id,
                        ) {
                            old_groups[k].level + new_level - old_level
                        } else {
                            old_groups[k].level as int
                        }))
                    },
            decreases old_groups.len() - j,
        {
            let g = &self.groups[j];
            if j == gi {
                new_groups.push(
                    NoteGroup {
                        id: g.id,
                        name: trimmed.clone(),
                        collapsed: g.collapsed,
                        parent_id,
                        level: new_level,
                    },
                );
            } else {
                let shifted: u32 = if marks[j] {
                    proof {
                        lemma_index_of(old_groups, old_groups[j as int].id, j as int);
                        assert(old_groups[j as int].id != group_id);
                        lemma_chain_levels(
                            old_groups,
                            old_groups[j as int].id,
                            group_id,
                            old_groups.len() as nat,
                        );
                        lemma_level_bounds(old_groups, j as int);
                    }
                    g.level - old_level + new_level
                } else {
                    g.level
                };
                new_groups.push(
                    NoteGroup {
                        id: g.id,
                        name: g.name.clone(),
                        collapsed: g.collapsed,
                        parent_id: g.parent_id,
                        level: shifted,
                    },
                );
            }
            j = j + 1;
        }
        proof {
            assert(reparented_shape(old_groups, new_groups@, gi as int, parent_id, new_level as int));
            lemma_reparent_wf(old_groups, new_groups@, gi as int, parent_id, new_level as int);
        }
        self.groups = new_groups;
        Result::Ok(())
    }
}


/// Presentation-layer state, separated from the application's data.
#[derive(Debug)]
pub struct UiState {
    pub selected_note: Option<usize>,
    pub editing_title: Option<usize>,
    pub editing_content: Option<usize>,
    pub theme_mode: crate::theme::ThemeMode,
    pub preferred_load_mode: LoadMode,
    pub show_performance_stats: bool,
    pub new_note_title: String,
    pub new_note_content: String,
    pub new_note_group_id: Option<Uid>,
    pub show_settings: bool,
    pub show_group_creation: bool,
    pub show_group_editor: bool,
    pub new_group_name: String,
    pub group_creation_selected_notes: Vec<Uid>,
    pub creating_subgroup_for: Option<Uid>,
    pub new_note_parent_group_id: Option<Uid>,
    pub editing_group_id: Option<Uid>,
    pub editing_group_name: String,
    pub editing_group_parent_id: Option<Uid>,
}

impl UiState {
    /// Everything closed, every form empty.
    pub fn new() -> (r: UiState)
        ensures
            r.selected_note is None,
            r.editing_title is None,
            r.editing_content is None,
            r.theme_mode == crate::theme::ThemeMode::Auto,
            r.preferred_load_mode == LoadMode::Auto,
            !r.show_performance_stats,
            r.new_note_title@.len() == 0,
            r.new_note_content@.len() == 0,
            r.new_note_group_id is None,
            !r.show_settings,
            !r.show_group_creation,
            !r.show_group_editor,
            r.new_group_name@.len() == 0,
            r.group_creation_selected_notes@.len() == 0,
            r.creating_subgroup_for is None,
            r.new_note_parent_group_id is None,
            r.editing_group_id is None,
            r.editing_group_name@.len() == 0,
            r.editing_group_parent_id is None,
    {
        UiState {
            selected_note: Option::None,
            editing_title: Option::None,
            editing_content: Option::None,
            theme_mode: crate::theme::ThemeMode::Auto,
            preferred_load_mode: LoadMode::Auto,
            show_performance_stats: false,
            new_note_title: String::new(),
            new_note_content: String::new(),
            new_note_group_id: Option::None,
            show_settings: false,
            show_group_creation: false,
            show_group_editor: false,
            new_group_name: String::new(),
            group_creation_selected_notes: Vec::new(),
            creating_subgroup_for: Option::None,
            new_note_parent_group_id: Option::None,
            editing_group_id: Option::None,
            editing_group_name: String::new(),
            editing_group_parent_id: Option::None,
        }
    }

    /// Empties the note form and drops the selection; everything else
    /// stays.
    pub fn clear_note_form(&mut self)
        ensures
            final(self).new_note_title@.len() == 0,
            final(self).new_note_content@.len() == 0,
            final(self).new_note_group_id is None,
            final(self).selected_note is None,
            final(self).editing_title == old(self).editing_title,
            final(self).editing_content == old(self).editing_content,
            final(self).theme_mode == old(self).theme_mode,
            final(self).preferred_load_mode == old(self).preferred_load_mode,
            final(self).show_performance_stats == old(self).show_performance_stats,
            final(self).show_settings == old(self).show_settings,
            final(self).show_group_creation == old(self).show_group_creation,
            final(self).show_group_editor == old(self).show_group_editor,
            final(self).new_group_name == old(self).new_group_name,
            final(self).group_creation_selected_notes == old(self).group_creation_selected_notes,
            final(self).creating_subgroup_for == old(self).creating_subgroup_for,
            final(self).new_note_parent_group_id == old(self).new_note_parent_group_id,
            final(self).editing_group_id == old(self).editing_group_id,
            final(self).editing_group_name == old(self).editing_group_name,
            final(self).editing_group_parent_id == old(self).editing_group_parent_id,
    {
        self.new_note_title = String::new();
        self.new_note_content = String::new();
        self.new_note_group_id = Option::None;
        self.selected_note = Option::None;
    }

    /// Closes the group-creation window and empties its form;
    /// everything else stays.
    pub fn clear_group_form(&mut self)
        ensures
            !final(self).show_group_creation,
            final(self).creating_subgroup_for is None,
            final(self).new_note_parent_group_id is None,
            final(self).group_creation_selected_notes@.len() == 0,
            final(self).new_group_name@.len() == 0,
            final(self).selected_note == old(self).selected_note,
            final(self).editing_title == old(self).editing_title,
            final(self).editing_content == old(self).editing_content,
            final(self).theme_mode == old(self).theme_mode,
            final(self).preferred_load_mode == old(self).preferred_load_mode,
            final(self).show_performance_stats == old(self).show_performance_stats,
            final(self).new_note_title == old(self).new_note_title,
            final(self).new_note_content == old(self).new_note_content,
            final(self).new_note_group_id == old(self).new_note_group_id,
            final(self).show_settings == old(self).show_settings,
            final(self).show_group_editor == old(self).show_group_editor,
            final(self).editing_group_id == old(self).editing_group_id,
            final(self).editing_group_name == old(self).editing_group_name,
            final(self).editing_group_parent_id == old(self).editing_group_parent_id,
    {
        self.show_group_creation = false;
        self.creating_subgroup_for = Option::None;
        self.new_note_parent_group_id = Option::None;
        self.group_creation_selected_notes = Vec::new();
        self.new_group_name = String::new();
    }

    /// Ends both edits; everything else stays.
    pub fn stop_editing(&mut self)
        ensures
            final(self).editing_content is None,
            final(self).editing_title is None,
            final(self).selected_note == old(self).selected_note,
            final(self).theme_mode == old(self).theme_mode,
            final(self).preferred_load_mode == old(self).preferred_load_mode,
            final(self).show_performance_stats == old(self).show_performance_stats,
            final(self).new_note_title == old(self).new_note_title,
            final(self).new_note_content == old(self).new_note_content,
            final(self).new_note_group_id == old(self).new_note_group_id,
            final(self).show_settings == old(self).show_settings,
            final(self).show_group_creation == old(self).show_group_creation,
            final(self).show_group_editor == old(self).show_group_editor,
            final(self).new_group_name == old(self).new_group_name,
            final(self).group_creation_selected_notes == old(self).group_creation_selected_notes,
            final(self).creating_subgroup_for == old(self).creating_subgroup_for,
            final(self).new_note_parent_group_id == old(self).new_note_parent_group_id,
            final(self).editing_group_id == old(self).editing_group_id,
            final(self).editing_group_name == old(self).editing_group_name,
            final(self).editing_group_parent_id == old(self).editing_group_parent_id,
    {
        self.editing_content = Option::None;
        self.editing_title = Option::None;
    }
}

} // verus!
