//! The shape of the group tree: which collections of groups are
//! well formed, what it means for one group to sit on another's
//! parent chain, and the facts the state operations lean on.
//!
//! Well-formedness asks that every stored `level` equal the parent's
//! level plus one (zero at a root). Levels then strictly decrease along
//! any parent chain, which rules every cycle out: the level field is a
//! ranking function for the parent graph.

use vstd::prelude::*;
use vstd::set_lib::{lemma_int_range, lemma_len_subset, set_int_range};
use crate::ids::Uid;
use crate::notes::NoteGroup;

verus! {

/// No two groups share an id.
pub open spec fn ids_unique(groups: Seq<NoteGroup>) -> bool {
    forall|i: int, j: int| 0 <= i < j < groups.len() ==> groups[i].id != groups[j].id
}

/// Some group carries this id.
pub open spec fn has_group(groups: Seq<NoteGroup>, id: Uid) -> bool {
    exists|i: int| 0 <= i < groups.len() && groups[i].id == id
}

/// The index of the group carrying this id (unique when ids are unique).
pub open spec fn index_of(groups: Seq<NoteGroup>, id: Uid) -> int {
    choose|i: int| 0 <= i < groups.len() && groups[i].id == id
}

/// The group carrying this id.
pub open spec fn group_of(groups: Seq<NoteGroup>, id: Uid) -> NoteGroup {
    groups[index_of(groups, id)]
}

/// The group at index `i` has a level one above its parent's, or zero
/// at a root, and its parent exists.
pub open spec fn level_link_ok(groups: Seq<NoteGroup>, i: int) -> bool {
    match groups[i].parent_id {
        Option::None => groups[i].level == 0,
        Option::Some(p) => has_group(groups, p) && groups[i].level == group_of(
            groups,
            p,
        ).level + 1,
    }
}

/// The invariant of the whole group collection: unique ids, existing
/// parents, and levels that are exactly the distance to a root.
pub open spec fn groups_wf(groups: Seq<NoteGroup>) -> bool {
    ids_unique(groups) && forall|i: int| 0 <= i < groups.len() ==> level_link_ok(groups, i)
}

/// `target` stands on the parent chain that starts at `from` (the
/// chain includes `from` itself), found within `fuel` steps.
pub open spec fn chain_reaches(groups: Seq<NoteGroup>, from: Uid, target: Uid, fuel: nat) -> bool
    decreases fuel,
{
    from == target || (fuel > 0 && has_group(groups, from) && match group_of(
        groups,
        from,
    ).parent_id {
        Option::Some(p) => chain_reaches(groups, p, target, (fuel - 1) as nat),
        Option::None => false,
    })
}

/// `target` stands on the parent chain that starts at `from`. Fuel equal
/// to the collection's size suffices in a well-formed collection.
pub open spec fn reaches(groups: Seq<NoteGroup>, from: Uid, target: Uid) -> bool {
    chain_reaches(groups, from, target, groups.len() as nat)
}

/// The parent chain from `id` ends at a root within `fuel` steps.
pub open spec fn reaches_root_within(groups: Seq<NoteGroup>, id: Uid, fuel: nat) -> bool
    decreases fuel,
{
    has_group(groups, id) && match group_of(groups, id).parent_id {
        Option::None => true,
        Option::Some(p) => fuel > 0 && reaches_root_within(groups, p, (fuel - 1) as nat),
    }
}

/// With unique ids, any index carrying the id is the index `index_of` picks.
pub proof fn lemma_index_of(groups: Seq<NoteGroup>, id: Uid, k: int)
    requires
        ids_unique(groups),
        0 <= k < groups.len(),
        groups[k].id == id,
    ensures
        has_group(groups, id),
        index_of(groups, id) == k,
        group_of(groups, id) == groups[k],
{
    assert(has_group(groups, id));
    let i = index_of(groups, id);
    assert(0 <= i < groups.len() && groups[i].id == id);
    if i != k {
        if i < k {
            assert(groups[i].id != groups[k].id);
        } else {
            assert(groups[k].id != groups[i].id);
        }
    }
}

/// More fuel never loses a reachable target.
pub proof fn lemma_chain_fuel_mono(
    groups: Seq<NoteGroup>,
    from: Uid,
    target: Uid,
    f1: nat,
    f2: nat,
)
    requires
        chain_reaches(groups, from, target, f1),
        f1 <= f2,
    ensures
        chain_reaches(groups, from, target, f2),
    decreases f1,
{
    if from != target {
        match group_of(groups, from).parent_id {
            Option::Some(p) => {
                lemma_chain_fuel_mono(groups, p, target, (f1 - 1) as nat, (f2 - 1) as nat);
            },
            Option::None => {},
        }
    }
}

/// Along a well-formed chain, levels strictly decrease towards the
/// target, and fuel equal to the level gap suffices.
pub proof fn lemma_chain_levels(groups: Seq<NoteGroup>, from: Uid, target: Uid, fuel: nat)
    requires
        groups_wf(groups),
        has_group(groups, from),
        chain_reaches(groups, from, target, fuel),
        from != target,
    ensures
        has_group(groups, target),
        group_of(groups, from).level > group_of(groups, target).level,
        chain_reaches(
            groups,
            from,
            target,
            (group_of(groups, from).level - group_of(groups, target).level) as nat,
        ),
    decreases fuel,
{
    let fi = index_of(groups, from);
    assert(level_link_ok(groups, fi));
    let p = group_of(groups, from).parent_id->Some_0;
    assert(group_of(groups, from).level == group_of(groups, p).level + 1);
    if p == target {
        assert(chain_reaches(groups, p, target, 0nat));
        assert(chain_reaches(groups, from, target, 1nat));
        lemma_chain_fuel_mono(
            groups,
            from,
            target,
            1nat,
            (group_of(groups, from).level - group_of(groups, target).level) as nat,
        );
    } else {
        lemma_chain_levels(groups, p, target, (fuel - 1) as nat);
        let gap = (group_of(groups, p).level - group_of(groups, target).level) as nat;
        assert(chain_reaches(groups, from, target, gap + 1));
    }
}

/// In a well-formed collection every level is below the collection's size.
pub proof fn lemma_level_bounds(groups: Seq<NoteGroup>, i: int)
    requires
        groups_wf(groups),
        0 <= i < groups.len(),
    ensures
        groups[i].level < groups.len(),
{
    lemma_levels_populated(groups, groups[i].level as nat);
    lemma_int_range(0, groups.len() as int);
    lemma_len_subset(
        level_witnesses(groups, groups[i].level as nat),
        set_int_range(0, groups.len() as int),
    );
}

/// The indices of groups whose level is at most `l`.
pub open spec fn level_witnesses(groups: Seq<NoteGroup>, l: nat) -> Set<int> {
    Set::new(|j: int| 0 <= j < groups.len() && groups[j].level <= l)
}

/// If some group sits at level `l`, at least `l + 1` groups sit at or
/// below it: each level down to zero is populated.
pub proof fn lemma_levels_populated(groups: Seq<NoteGroup>, l: nat)
    requires
        groups_wf(groups),
        exists|i: int| 0 <= i < groups.len() && groups[i].level == l,
    ensures
        level_witnesses(groups, l).finite(),
        level_witnesses(groups, l).len() >= l + 1,
    decreases l,
{
    lemma_int_range(0, groups.len() as int);
    lemma_len_subset(level_witnesses(groups, l), set_int_range(0, groups.len() as int));
    let i = choose|i: int| 0 <= i < groups.len() && groups[i].level == l;
    if l == 0 {
        assert(level_witnesses(groups, l).contains(i));
        assert(level_witnesses(groups, l).remove(i).len() + 1 == level_witnesses(groups, l).len());
    } else {
        assert(level_link_ok(groups, i));
        let p = groups[i].parent_id->Some_0;
        let pi = index_of(groups, p);
        assert(0 <= pi < groups.len() && groups[pi].level == l - 1);
        lemma_levels_populated(groups, (l - 1) as nat);
        assert(level_witnesses(groups, (l - 1) as nat).insert(i).subset_of(
            level_witnesses(groups, l),
        ));
        lemma_len_subset(
            level_witnesses(groups, (l - 1) as nat).insert(i),
            level_witnesses(groups, l),
        );
        assert(!level_witnesses(groups, (l - 1) as nat).contains(i));
        assert(level_witnesses(groups, (l - 1) as nat).insert(i).len() == level_witnesses(
            groups,
            (l - 1) as nat,
        ).len() + 1);
    }
}

/// Reachability in any number of steps is reachability with the
/// standard fuel, in a well-formed collection.
pub proof fn lemma_chain_saturates(groups: Seq<NoteGroup>, from: Uid, target: Uid, fuel: nat)
    requires
        groups_wf(groups),
        chain_reaches(groups, from, target, fuel),
    ensures
        reaches(groups, from, target),
{
    if from != target {
        assert(has_group(groups, from));
        lemma_chain_levels(groups, from, target, fuel);
        let fi = index_of(groups, from);
        lemma_level_bounds(groups, fi);
        lemma_chain_fuel_mono(
            groups,
            from,
            target,
            (group_of(groups, from).level - group_of(groups, target).level) as nat,
            groups.len() as nat,
        );
    }
}

/// One step of the chain: a group reaches whatever its parent reaches.
pub proof fn lemma_reaches_step(groups: Seq<NoteGroup>, from: Uid, target: Uid)
    requires
        groups_wf(groups),
        has_group(groups, from),
        group_of(groups, from).parent_id.is_some(),
    ensures
        from != target ==> (reaches(groups, from, target) <==> reaches(
            groups,
            group_of(groups, from).parent_id.unwrap(),
            target,
        )),
{
    let p = group_of(groups, from).parent_id->Some_0;
    if from != target {
        if reaches(groups, from, target) {
            assert(chain_reaches(groups, p, target, (groups.len() - 1) as nat));
            lemma_chain_saturates(groups, p, target, (groups.len() - 1) as nat);
        }
        if reaches(groups, p, target) {
            assert(chain_reaches(groups, from, target, groups.len() as nat + 1));
            lemma_chain_saturates(groups, from, target, groups.len() as nat + 1);
        }
    }
}

/// Law: a well-formed collection is acyclic. No group stands on the
/// parent chain that starts at its own parent; the chain from any
/// group ends at a root within `level` steps; and wherever the stored
/// levels respect a depth bound, every chain ends within that bound.
pub proof fn lemma_hierarchy_acyclic(groups: Seq<NoteGroup>, i: int, bound: nat)
    requires
        groups_wf(groups),
        0 <= i < groups.len(),
    ensures
        groups[i].parent_id.is_some() ==> !reaches(
            groups,
            groups[i].parent_id.unwrap(),
            groups[i].id,
        ),
        reaches_root_within(groups, groups[i].id, groups[i].level as nat),
        (forall|j: int| 0 <= j < groups.len() ==> (#[trigger] groups[j]).level <= bound)
            ==> reaches_root_within(groups, groups[i].id, bound),
{
    lemma_index_of(groups, groups[i].id, i);
    if groups[i].parent_id.is_some() {
        let p = groups[i].parent_id->Some_0;
        assert(level_link_ok(groups, i));
        if reaches(groups, p, groups[i].id) {
            if p == groups[i].id {
                assert(groups[i].level == group_of(groups, p).level + 1);
                assert(false);
            } else {
                lemma_chain_levels(groups, p, groups[i].id, groups.len() as nat);
                assert(false);
            }
        }
    }
    lemma_root_within_level(groups, groups[i].id);
    if forall|j: int| 0 <= j < groups.len() ==> (#[trigger] groups[j]).level <= bound {
        lemma_root_within_mono(groups, groups[i].id, groups[i].level as nat, bound);
    }
}

/// More fuel never loses a root already reached.
pub proof fn lemma_root_within_mono(groups: Seq<NoteGroup>, id: Uid, f1: nat, f2: nat)
    requires
        reaches_root_within(groups, id, f1),
        f1 <= f2,
    ensures
        reaches_root_within(groups, id, f2),
    decreases f1,
{
    match group_of(groups, id).parent_id {
        Option::None => {},
        Option::Some(p) => {
            lemma_root_within_mono(groups, p, (f1 - 1) as nat, (f2 - 1) as nat);
        },
    }
}

/// A collection with the same ids, parents and levels is well formed
/// whenever the original is: names and flags play no part.
pub proof fn lemma_same_shape_wf(g0: Seq<NoteGroup>, g1: Seq<NoteGroup>)
    requires
        groups_wf(g0),
        g1.len() == g0.len(),
        forall|j: int|
            0 <= j < g0.len() ==> (#[trigger] g1[j]).id == g0[j].id && g1[j].parent_id
                == g0[j].parent_id && g1[j].level == g0[j].level,
    ensures
        groups_wf(g1),
{
    assert forall|j: int| 0 <= j < g1.len() implies level_link_ok(g1, j) by {
        assert(level_link_ok(g0, j));
        match g0[j].parent_id {
            Option::None => {},
            Option::Some(p) => {
                let pi = index_of(g0, p);
                lemma_index_of(g1, p, pi);
            },
        }
    }
}

/// Appending a fresh group whose level sits one above its parent's
/// (zero at a root) keeps the collection well formed.
pub proof fn lemma_append_wf(g0: Seq<NoteGroup>, g: NoteGroup)
    requires
        groups_wf(g0),
        !has_group(g0, g.id),
        match g.parent_id {
            Option::None => g.level == 0,
            Option::Some(p) => has_group(g0, p) && g.level == group_of(g0, p).level + 1,
        },
    ensures
        groups_wf(g0.push(g)),
{
    let g1 = g0.push(g);
    assert forall|j: int| 0 <= j < g1.len() implies level_link_ok(g1, j) by {
        if j < g0.len() {
            assert(level_link_ok(g0, j));
            match g0[j].parent_id {
                Option::None => {},
                Option::Some(p) => {
                    let pi = index_of(g0, p);
                    lemma_index_of(g1, p, pi);
                },
            }
        } else {
            match g.parent_id {
                Option::None => {},
                Option::Some(p) => {
                    let pi = index_of(g0, p);
                    lemma_index_of(g0, p, pi);
                    lemma_index_of(g1, p, pi);
                },
            }
        }
    }
}

/// The pointwise shape of a collection after the group at `gi` was
/// given the parent `new_parent` and the level `new_level`, with every
/// level in its subtree shifted by the same amount. Ids and all other
/// parents stay; names and flags are unconstrained.
pub open spec fn reparented_shape(
    g0: Seq<NoteGroup>,
    g1: Seq<NoteGroup>,
    gi: int,
    new_parent: Option<Uid>,
    new_level: int,
) -> bool {
    let gid = g0[gi].id;
    let delta = new_level - g0[gi].level;
    &&& g1.len() == g0.len()
    &&& forall|j: int| 0 <= j < g0.len() ==> (#[trigger] g1[j]).id == g0[j].id
    &&& g1[gi].parent_id == new_parent
    &&& g1[gi].level == new_level
    &&& forall|j: int|
        0 <= j < g0.len() && j != gi ==> (#[trigger] g1[j]).parent_id == g0[j].parent_id
    &&& forall|j: int|
        0 <= j < g0.len() && j != gi ==> (#[trigger] g1[j]).level == (if reaches(
            g0,
            g0[j].id,
            gid,
        ) {
            g0[j].level + delta
        } else {
            g0[j].level as int
        })
}

/// Reparenting a group under a parent that does not sit in its own
/// subtree, while shifting the subtree's levels by the level change,
/// keeps the collection well formed.
pub proof fn lemma_reparent_wf(
    g0: Seq<NoteGroup>,
    g1: Seq<NoteGroup>,
    gi: int,
    new_parent: Option<Uid>,
    new_level: int,
)
    requires
        groups_wf(g0),
        0 <= gi < g0.len(),
        match new_parent {
            Option::None => new_level == 0,
            Option::Some(p) => has_group(g0, p) && !reaches(g0, p, g0[gi].id) && new_level
                == group_of(g0, p).level + 1,
        },
        reparented_shape(g0, g1, gi, new_parent, new_level),
    ensures
        groups_wf(g1),
{
    let gid = g0[gi].id;
    let delta = new_level - g0[gi].level;
    assert forall|j: int| 0 <= j < g1.len() implies level_link_ok(g1, j) by {
        lemma_index_of(g0, g0[j].id, j);
        if j == gi {
            match new_parent {
                Option::None => {},
                Option::Some(p) => {
                    assert(p != gid);
                    let pi = index_of(g0, p);
                    lemma_index_of(g0, p, pi);
                    assert(pi != gi);
                    assert(g1[pi].level == g0[pi].level as int);
                    lemma_index_of(g1, p, pi);
                },
            }
        } else {
            let x = g0[j];
            assert(x.id != gid);
            assert(level_link_ok(g0, j));
            match x.parent_id {
                Option::None => {
                    if reaches(g0, x.id, gid) {
                        assert(false);
                    }
                },
                Option::Some(q) => {
                    let qi = index_of(g0, q);
                    lemma_index_of(g0, q, qi);
                    lemma_reaches_step(g0, x.id, gid);
                    if qi == gi {
                        assert(q == gid);
                        assert(reaches(g0, gid, gid));
                        assert(reaches(g0, x.id, gid));
                        lemma_index_of(g1, q, gi);
                        assert(g1[j].level == new_level + 1);
                    } else {
                        lemma_index_of(g1, q, qi);
                        if reaches(g0, q, gid) {
                            assert(reaches(g0, x.id, gid));
                        } else {
                            assert(!reaches(g0, x.id, gid));
                        }
                    }
                },
            }
        }
    }
}

/// The pointwise shape of a collection after the group at `gi` was
/// removed: its children take its parent, the levels of its whole
/// subtree drop by one, and everything else stays.
pub open spec fn removed_shape(g0: Seq<NoteGroup>, g1: Seq<NoteGroup>, gi: int) -> bool {
    let gid = g0[gi].id;
    let parent = g0[gi].parent_id;
    &&& g1.len() == g0.len() - 1
    &&& forall|j: int|
        0 <= j < g1.len() ==> {
            let oj = if j < gi {
                j
            } else {
                j + 1
            };
            &&& (#[trigger] g1[j]).id == g0[oj].id
            &&& g1[j].parent_id == (if g0[oj].parent_id == Option::Some(gid) {
                parent
            } else {
                g0[oj].parent_id
            })
            &&& g1[j].level == (if reaches(g0, g0[oj].id, gid) {
                g0[oj].level - 1
            } else {
                g0[oj].level as int
            })
        }
}

/// Removing a group while reattaching its children to its parent and
/// dropping its subtree's levels by one keeps the collection well
/// formed, and the removed id is gone.
pub proof fn lemma_remove_wf(g0: Seq<NoteGroup>, g1: Seq<NoteGroup>, gi: int)
    requires
        groups_wf(g0),
        0 <= gi < g0.len(),
        removed_shape(g0, g1, gi),
    ensures
        groups_wf(g1),
        !has_group(g1, g0[gi].id),
{
    let gid = g0[gi].id;
    let parent = g0[gi].parent_id;
    assert(level_link_ok(g0, gi));
    assert forall|j: int| 0 <= j < g1.len() implies g1[j].id != gid by {
        let oj = if j < gi {
            j
        } else {
            j + 1
        };
        assert(g1[j].id == g0[oj].id);
        if oj < gi {
            assert(g0[oj].id != g0[gi].id);
        } else {
            assert(g0[gi].id != g0[oj].id);
        }
    }
    assert(ids_unique(g1)) by {
        assert forall|a: int, b: int| 0 <= a < b < g1.len() implies g1[a].id != g1[b].id by {
            let oa = if a < gi {
                a
            } else {
                a + 1
            };
            let ob = if b < gi {
                b
            } else {
                b + 1
            };
            assert(g1[a].id == g0[oa].id);
            assert(g1[b].id == g0[ob].id);
            assert(g0[oa].id != g0[ob].id);
        }
    }
    assert forall|j: int| 0 <= j < g1.len() implies level_link_ok(g1, j) by {
        let oj = if j < gi {
            j
        } else {
            j + 1
        };
        let x = g0[oj];
        lemma_index_of(g0, x.id, oj);
        assert(x.id != gid);
        assert(level_link_ok(g0, oj));
        match x.parent_id {
            Option::None => {
                if reaches(g0, x.id, gid) {
                    assert(false);
                }
            },
            Option::Some(q) => {
                lemma_reaches_step(g0, x.id, gid);
                if q == gid {
                    // a child of the removed group: it takes the removed
                    // group's parent and its level drops to the removed
                    // group's own
                    assert(chain_reaches(g0, gid, gid, 0nat));
                    assert(chain_reaches(g0, x.id, gid, 1nat));
                    lemma_chain_saturates(g0, x.id, gid, 1nat);
                    lemma_index_of(g0, gid, gi);
                    assert(x.level == g0[gi].level + 1);
                    match parent {
                        Option::None => {},
                        Option::Some(p) => {
                            assert(p != gid);
                            lemma_hierarchy_acyclic(g0, gi, 0);
                            assert(!reaches(g0, p, gid));
                            let pi = index_of(g0, p);
                            lemma_index_of(g0, p, pi);
                            let pj = if pi < gi {
                                pi
                            } else {
                                pi - 1
                            };
                            assert(g1[pj].id == p);
                            assert(g1[pj].level == g0[pi].level as int);
                            lemma_index_of(g1, p, pj);
                        },
                    }
                } else {
                    let qi = index_of(g0, q);
                    lemma_index_of(g0, q, qi);
                    assert(qi != gi);
                    let qj = if qi < gi {
                        qi
                    } else {
                        qi - 1
                    };
                    assert(g1[qj].id == q);
                    lemma_index_of(g1, q, qj);
                    if reaches(g0, q, gid) {
                        assert(reaches(g0, x.id, gid));
                        lemma_chain_levels(g0, q, gid, g0.len() as nat);
                        assert(g1[qj].level == g0[qi].level - 1);
                    } else {
                        assert(!reaches(g0, x.id, gid));
                        assert(g1[qj].level == g0[qi].level as int);
                    }
                }
            },
        }
    }
}

/// Finds the index of the group carrying `id`, scanning front to back.
pub fn find_group_index(groups: &Vec<NoteGroup>, id: Uid) -> (r: Option<usize>)
    ensures
        match r {
            Option::Some(k) => k < groups@.len() && groups@[k as int].id == id,
            Option::None => !has_group(groups@, id),
        },
{
    let mut i: usize = 0;
    while i < groups.len()
        invariant
            i <= groups@.len(),
            forall|j: int| 0 <= j < i ==> groups@[j].id != id,
        decreases groups@.len() - i,
    {
        if groups[i].id == id {
            return Option::Some(i);
        }
        i = i + 1;
    }
    Option::None
}

/// Walks the parent chain upward from `start` and reports whether it
/// passes through `target` (a chain begins at its own starting group).
pub fn chain_contains(groups: &Vec<NoteGroup>, start: Uid, target: Uid) -> (r: bool)
    requires
        groups_wf(groups@),
    ensures
        r == reaches(groups@, start, target),
{
    let ghost gs = groups@;
    let mut cur: Uid = start;
    loop
        invariant
            groups_wf(gs),
            gs == groups@,
            reaches(gs, start, target) == reaches(gs, cur, target),
        decreases (if has_group(gs, cur) && cur != target {
            group_of(gs, cur).level as int + 1
        } else {
            0int
        }),
    {
        if cur == target {
            return true;
        }
        match find_group_index(groups, cur) {
            Option::None => {
                assert(!reaches(gs, cur, target));
                return false;
            },
            Option::Some(k) => {
                proof {
                    lemma_index_of(gs, cur, k as int);
                }
                match groups[k].parent_id {
                    Option::None => {
                        assert(!reaches(gs, cur, target));
                        return false;
                    },
                    Option::Some(p) => {
                        proof {
                            lemma_reaches_step(gs, cur, target);
                            assert(level_link_ok(gs, k as int));
                        }
                        cur = p;
                    },
                }
            },
        }
    }
}

/// Marks, for every position, whether `target` stands on the parent
/// chain of the group there. The group carrying `target` itself is
/// marked too; with unique ids every other mark names a proper
/// descendant.
pub fn descendant_marks(groups: &Vec<NoteGroup>, target: Uid) -> (r: Vec<bool>)
    requires
        groups_wf(groups@),
    ensures
        r@.len() == groups@.len(),
        forall|j: int|
            0 <= j < groups@.len() ==> r@[j] == reaches(groups@, groups@[j].id, target),
{
    let mut marks: Vec<bool> = Vec::new();
    let mut j: usize = 0;
    while j < groups.len()
        invariant
            groups_wf(groups@),
            j <= groups@.len(),
            marks@.len() == j,
            forall|k: int| 0 <= k < j ==> marks@[k] == reaches(groups@, groups@[k].id, target),
        decreases groups@.len() - j,
    {
        let reached = chain_contains(groups, groups[j].id, target);
        marks.push(reached);
        j = j + 1;
    }
    marks
}

/// The parent chain from any existing group ends at a root within
/// `level` steps.
pub proof fn lemma_root_within_level(groups: Seq<NoteGroup>, id: Uid)
    requires
        groups_wf(groups),
        has_group(groups, id),
    ensures
        reaches_root_within(groups, id, group_of(groups, id).level as nat),
    decreases group_of(groups, id).level,
{
    let i = index_of(groups, id);
    assert(level_link_ok(groups, i));
    match group_of(groups, id).parent_id {
        Option::None => {},
        Option::Some(p) => {
            lemma_root_within_level(groups, p);
        },
    }
}

} // verus!
