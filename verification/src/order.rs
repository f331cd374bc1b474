//! Ordering of the note list: pinned notes first, then newest first.

use vstd::prelude::*;
use vstd::multiset::Multiset;
use vstd::seq_lib::{group_to_multiset_ensures, lemma_multiset_commutative, to_multiset_build};
use crate::notes::Note;

verus! {

/// `a` may stand at or before `b` in a sorted list: pinned notes come
/// first, and within each class the newer note comes first.
pub open spec fn note_precedes_eq(a: Note, b: Note) -> bool {
    (a.pinned && !b.pinned) || (a.pinned == b.pinned && a.created_at >= b.created_at)
}

/// The list is sorted by `note_precedes_eq`.
pub open spec fn notes_sorted(s: Seq<Note>) -> bool {
    forall|i: int, j: int| 0 <= i < j < s.len() ==> note_precedes_eq(s[i], s[j])
}

/// Inserting anywhere adds one occurrence to the multiset of a sequence.
pub proof fn lemma_insert_multiset(s: Seq<Note>, k: int, x: Note)
    requires
        0 <= k <= s.len(),
    ensures
        s.insert(k, x).to_multiset() =~= s.to_multiset().insert(x),
{
    broadcast use group_to_multiset_ensures;

    let left = s.subrange(0, k);
    let right = s.subrange(k, s.len() as int);
    assert(s =~= left + right);
    assert(s.insert(k, x) =~= left + seq![x] + right);
    lemma_multiset_commutative(left, right);
    lemma_multiset_commutative(left + seq![x], right);
    lemma_multiset_commutative(left, seq![x]);
    assert(seq![x].to_multiset() =~= Multiset::empty().insert(x)) by {
        assert(seq![x].drop_first() =~= Seq::<Note>::empty());
    }
}

fn precedes_eq(a: &Note, b: &Note) -> (r: bool)
    ensures
        r == note_precedes_eq(*a, *b),
{
    if a.pinned != b.pinned {
        a.pinned
    } else {
        a.created_at >= b.created_at
    }
}

/// Places `x` at its position in an already sorted list.
fn insert_sorted(sorted: &mut Vec<Note>, x: Note)
    requires
        notes_sorted(old(sorted)@),
    ensures
        notes_sorted(final(sorted)@),
        final(sorted)@.to_multiset() == old(sorted)@.to_multiset().insert(x),
        final(sorted)@.len() == old(sorted)@.len() + 1,
{
    let ghost s0 = sorted@;
    let mut k: usize = 0;
    while k < sorted.len() && precedes_eq(&sorted[k], &x)
        invariant
            sorted@ == s0,
            k <= s0.len(),
            forall|j: int| 0 <= j < k ==> note_precedes_eq(s0[j], x),
        decreases s0.len() - k,
    {
        k = k + 1;
    }
    proof {
        if (k as int) < s0.len() {
            assert(note_precedes_eq(x, s0[k as int]));
            assert forall|j: int| k <= j < s0.len() implies note_precedes_eq(x, s0[j]) by {
                assert(j == k || note_precedes_eq(s0[k as int], s0[j]));
            }
        }
        lemma_insert_multiset(s0, k as int, x);
    }
    sorted.insert(k, x);
    proof {
        assert forall|i: int, j: int|
            0 <= i < j < sorted@.len() implies note_precedes_eq(sorted@[i], sorted@[j]) by {
            assert(sorted@ == s0.insert(k as int, x));
        }
    }
}

/// Sorts notes so that pinned ones come first and, within each class,
/// newer ones come first. The notes themselves are kept: the result is
/// a permutation of the input.
pub fn sort_notes_vec(notes: &mut Vec<Note>)
    ensures
        notes_sorted(final(notes)@),
        final(notes)@.to_multiset() == old(notes)@.to_multiset(),
        final(notes)@.len() == old(notes)@.len(),
{
    broadcast use group_to_multiset_ensures;

    let ghost n0 = old(notes)@;
    let mut sorted: Vec<Note> = Vec::new();
    while notes.len() > 0
        invariant
            notes_sorted(sorted@),
            sorted@.to_multiset().add(notes@.to_multiset()) =~= n0.to_multiset(),
            sorted@.len() + notes@.len() == n0.len(),
        decreases notes@.len(),
    {
        let ghost before = notes@;
        let x = notes.pop().unwrap();
        proof {
            assert(before =~= notes@.push(x));
            to_multiset_build(notes@, x);
            assert(before.to_multiset() =~= notes@.to_multiset().insert(x));
        }
        insert_sorted(&mut sorted, x);
        proof {
            assert(sorted@.to_multiset().add(notes@.to_multiset()) =~= n0.to_multiset());
        }
    }
    *notes = sorted;
}

} // verus!
