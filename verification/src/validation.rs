//! Validation of note and group fields, shared by every mutation path.
//! Checks are aggregated: a result carries every reason found, not just
//! the first.

use vstd::prelude::*;
use crate::ids::Uid;
use crate::notes::NoteGroup;
use crate::text::{trim_copy, trimmed_of, utf8_len};
use crate::hierarchy::{
    chain_contains, find_group_index, group_of, groups_wf, has_group, ids_unique, lemma_index_of,
    reaches,
};

verus! {

/// Longest accepted note title, in UTF-8 bytes.
pub const MAX_TITLE_LENGTH: usize = 255;

/// Longest accepted note content, in UTF-8 bytes.
pub const MAX_CONTENT_LENGTH: usize = 1048576;

/// Longest accepted group name, in UTF-8 bytes.
pub const MAX_GROUP_NAME_LENGTH: usize = 100;

/// Deepest level at which a group may still take children.
pub const MAX_GROUP_DEPTH: u32 = 10;

/// One reason a mutation was refused.
#[derive(PartialEq, Eq, Structural, Clone, Copy, Debug)]
pub enum ValidationError {
    EmptyTitle,
    TitleTooLong(usize),
    ContentTooLong(usize),
    EmptyGroupName,
    GroupNameTooLong(usize),
    CircularGroupDependency(Uid),
    GroupNotFound(Uid),
    InvalidGroupHierarchy,
    /// A freshly drawn id collided with an existing one.
    DuplicateId(Uid),
}

/// The outcome of a validation pass: a flag and every reason found.
#[derive(Debug)]
pub struct ValidationResult {
    pub is_valid: bool,
    pub errors: Vec<ValidationError>,
}

impl ValidationResult {
    pub fn valid() -> (r: ValidationResult)
        ensures
            r.is_valid,
            r.errors@ == Seq::<ValidationError>::empty(),
    {
        ValidationResult { is_valid: true, errors: Vec::new() }
    }

    pub fn add_error(&mut self, error: ValidationError)
        ensures
            !final(self).is_valid,
            final(self).errors@ == old(self).errors@.push(error),
    {
        self.errors.push(error);
        self.is_valid = false;
    }
}

/// The reasons creating a note with this title and content is refused.
pub open spec fn note_creation_errors(title: Seq<char>, content: Seq<char>) -> Seq<
    ValidationError,
> {
    let title_errors = if trimmed_of(title).len() == 0 {
        seq![ValidationError::EmptyTitle]
    } else if utf8_len(title) > MAX_TITLE_LENGTH {
        seq![ValidationError::TitleTooLong(utf8_len(title))]
    } else {
        Seq::empty()
    };
    let content_errors = if utf8_len(content) > MAX_CONTENT_LENGTH {
        seq![ValidationError::ContentTooLong(utf8_len(content))]
    } else {
        Seq::empty()
    };
    title_errors + content_errors
}

/// The reasons this name is refused for a group.
pub open spec fn group_name_errors(name: Seq<char>) -> Seq<ValidationError> {
    if trimmed_of(name).len() == 0 {
        seq![ValidationError::EmptyGroupName]
    } else if utf8_len(name) > MAX_GROUP_NAME_LENGTH {
        seq![ValidationError::GroupNameTooLong(utf8_len(name))]
    } else {
        Seq::empty()
    }
}

/// The reasons this parent is refused for a newly created group: the
/// parent must exist and must sit below the depth bound.
pub open spec fn group_parent_errors(parent_id: Option<Uid>, groups: Seq<NoteGroup>) -> Seq<
    ValidationError,
> {
    match parent_id {
        Option::None => Seq::empty(),
        Option::Some(p) => if !has_group(groups, p) {
            seq![ValidationError::GroupNotFound(p)]
        } else if group_of(groups, p).level >= MAX_GROUP_DEPTH {
            seq![ValidationError::InvalidGroupHierarchy]
        } else {
            Seq::empty()
        },
    }
}

/// The reasons creating a group with this name and parent is refused.
pub open spec fn group_creation_errors(
    name: Seq<char>,
    parent_id: Option<Uid>,
    groups: Seq<NoteGroup>,
) -> Seq<ValidationError> {
    group_name_errors(name) + group_parent_errors(parent_id, groups)
}

/// The reasons moving `group_id` under `new_parent_id` is refused: the
/// new parent must exist, and must not lie below `group_id` (nor be it).
pub open spec fn parent_change_errors(
    group_id: Uid,
    new_parent_id: Option<Uid>,
    groups: Seq<NoteGroup>,
) -> Seq<ValidationError> {
    match new_parent_id {
        Option::None => Seq::empty(),
        Option::Some(p) => if !has_group(groups, p) {
            seq![ValidationError::GroupNotFound(p)]
        } else if reaches(groups, p, group_id) {
            seq![ValidationError::CircularGroupDependency(group_id)]
        } else {
            Seq::empty()
        },
    }
}

/// The validation rules of the library, one function per mutation path.
pub struct ValidationRules;

impl ValidationRules {
    /// Checks the fields of a note about to be created.
    pub fn validate_note_creation(title: &str, content: &str) -> (r: ValidationResult)
        ensures
            r.errors@ == note_creation_errors(title@, content@),
            r.is_valid == (r.errors@.len() == 0),
    {
        let mut result = ValidationResult::valid();
        let trimmed_title = trim_copy(title);
        if trimmed_title.as_str().is_empty() {
            result.add_error(ValidationError::EmptyTitle);
        } else if title.len() > MAX_TITLE_LENGTH {
            result.add_error(ValidationError::TitleTooLong(title.len()));
        }
        if content.len() > MAX_CONTENT_LENGTH {
            result.add_error(ValidationError::ContentTooLong(content.len()));
        }
        proof {
            assert(result.errors@ =~= note_creation_errors(title@, content@));
        }
        result
    }

    /// Checks the fields of a group about to be created.
    pub fn validate_group_creation(
        name: &str,
        parent_id: Option<Uid>,
        groups: &Vec<NoteGroup>,
    ) -> (r: ValidationResult)
        requires
            ids_unique(groups@),
        ensures
            r.errors@ == group_creation_errors(name@, parent_id, groups@),
            r.is_valid == (r.errors@.len() == 0),
    {
        let mut result = ValidationResult::valid();
        let trimmed_name = trim_copy(name);
        if trimmed_name.as_str().is_empty() {
            result.add_error(ValidationError::EmptyGroupName);
        } else if name.len() > MAX_GROUP_NAME_LENGTH {
            result.add_error(ValidationError::GroupNameTooLong(name.len()));
        }
        match parent_id {
            Option::Some(p) => {
                match find_group_index(groups, p) {
                    Option::None => {
                        result.add_error(ValidationError::GroupNotFound(p));
                    },
                    Option::Some(k) => {
                        proof {
                            lemma_index_of(groups@, p, k as int);
                        }
                        if groups[k].level >= MAX_GROUP_DEPTH {
                            result.add_error(ValidationError::InvalidGroupHierarchy);
                        }
                    },
                }
            },
            Option::None => {},
        }
        proof {
            assert(result.errors@ =~= group_creation_errors(name@, parent_id, groups@));
        }
        result
    }

    /// Checks that giving `group_id` the parent `new_parent_id` keeps
    /// the hierarchy acyclic and the parent existing.
    pub fn validate_group_parent_change(
        group_id: Uid,
        new_parent_id: Option<Uid>,
        groups: &Vec<NoteGroup>,
    ) -> (r: ValidationResult)
        requires
            groups_wf(groups@),
        ensures
            r.errors@ == parent_change_errors(group_id, new_parent_id, groups@),
            r.is_valid == (r.errors@.len() == 0),
    {
        let mut result = ValidationResult::valid();
        match new_parent_id {
            Option::Some(p) => {
                match find_group_index(groups, p) {
                    Option::None => {
                        result.add_error(ValidationError::GroupNotFound(p));
                    },
                    Option::Some(_) => {
                        if Self::would_create_cycle(group_id, p, groups) {
                            result.add_error(ValidationError::CircularGroupDependency(group_id));
                        }
                    },
                }
            },
            Option::None => {},
        }
        proof {
            assert(result.errors@ =~= parent_change_errors(group_id, new_parent_id, groups@));
        }
        result
    }

    /// Reports whether making `new_parent_id` the parent of `group_id`
    /// would close a cycle: that is, whether `group_id` already lies on
    /// the parent chain of `new_parent_id`.
    fn would_create_cycle(group_id: Uid, new_parent_id: Uid, groups: &Vec<NoteGroup>) -> (r: bool)
        requires
            groups_wf(groups@),
        ensures
            r == reaches(groups@, new_parent_id, group_id),
    {
        chain_contains(groups, new_parent_id, group_id)
    }
}

} // verus!
