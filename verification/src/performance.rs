//! Paged, cache-bounded access to a large note collection.
//!
//! The loader owns the bookkeeping alone: which identifiers exist, which
//! pages were handed out, what sits in the bounded cache, and the eagerly
//! kept metadata. Reading a note's content from storage is its caller's
//! business; the caller hands loaded notes back through [`LazyNoteLoader::insert_loaded`].

use vstd::prelude::*;
use crate::ids::Uid;
use crate::notes::{Note, NoteMetadata};

verus! {

/// A snapshot of the loader's progress.
#[derive(Debug)]
pub struct LoaderStats {
    pub total_notes: usize,
    pub loaded_notes: usize,
    pub current_page: usize,
}

/// No two cache entries carry the same index.
pub open spec fn cache_keys_unique(cache: Seq<(usize, Note)>) -> bool {
    forall|i: int, j: int| 0 <= i < j < cache.len() ==> cache[i].0 != cache[j].0
}

/// Some cache entry carries this index.
pub open spec fn cache_has(cache: Seq<(usize, Note)>, index: usize) -> bool {
    exists|i: int| 0 <= i < cache.len() && cache[i].0 == index
}

/// The position of the cache entry carrying this index (unique when
/// the keys are).
pub open spec fn cache_position(cache: Seq<(usize, Note)>, index: usize) -> int {
    choose|i: int| 0 <= i < cache.len() && cache[i].0 == index
}

/// The note cached under this index.
pub open spec fn cache_at(cache: Seq<(usize, Note)>, index: usize) -> Note {
    cache[cache_position(cache, index)].1
}

/// With unique keys, any position carrying the index is the one
/// `cache_position` picks.
pub proof fn lemma_cache_position(cache: Seq<(usize, Note)>, index: usize, k: int)
    requires
        cache_keys_unique(cache),
        0 <= k < cache.len(),
        cache[k].0 == index,
    ensures
        cache_has(cache, index),
        cache_position(cache, index) == k,
        cache_at(cache, index) == cache[k].1,
{
    assert(cache_has(cache, index));
    let i = cache_position(cache, index);
    assert(0 <= i < cache.len() && cache[i].0 == index);
    if i != k {
        if i < k {
            assert(cache[i].0 != cache[k].0);
        } else {
            assert(cache[k].0 != cache[i].0);
        }
    }
}

/// The first metadata entry carrying this id, scanning front to back.
pub open spec fn metadata_lookup(md: Seq<NoteMetadata>, id: Uid) -> Option<NoteMetadata>
    decreases md.len(),
{
    if md.len() == 0 {
        Option::None
    } else if md[0].id == id {
        Option::Some(md[0])
    } else {
        metadata_lookup(md.drop_first(), id)
    }
}

/// Where page `page` starts in the index range.
pub open spec fn page_start(notes_per_page: nat, page: nat) -> nat {
    page * notes_per_page
}

/// Where page `page` ends: one page further, clipped to the total count.
pub open spec fn page_end(notes_per_page: nat, total: nat, page: nat) -> nat {
    vstd::math::min((page * notes_per_page + notes_per_page) as int, total as int) as nat
}

/// Lazily pages notes in, keeping at most `max_cache_size` of them
/// resident and all metadata at hand.
#[derive(Debug)]
pub struct LazyNoteLoader {
    /// How many notes one page holds.
    pub notes_per_page: usize,
    /// The next page `take_next_page_range` will hand out.
    pub current_page: usize,
    /// How many notes exist, loaded or not.
    pub total_notes: usize,
    /// Loaded notes by index, oldest first.
    pub loaded_notes: Vec<(usize, Note)>,
    /// The cache never holds more notes than this.
    pub max_cache_size: usize,
    /// Every note's identifier, in display order.
    pub note_ids: Vec<Uid>,
    /// How many pages to read ahead of the current one.
    pub prefetch_pages: usize,
    /// Every note's summary, kept resident and never evicted.
    pub metadata_cache: Vec<NoteMetadata>,
}

impl LazyNoteLoader {
    /// The loader's internal invariant: unique cache keys within the
    /// index range, a cache within its bound, a page counter that has
    /// only ever advanced over non-empty remainders, and index
    /// arithmetic that stays within the machine.
    pub open spec fn wf(&self) -> bool {
        &&& cache_keys_unique(self.loaded_notes@)
        &&& self.loaded_notes@.len() <= self.max_cache_size
        &&& forall|i: int|
            0 <= i < self.loaded_notes@.len() ==> (#[trigger] self.loaded_notes@[i]).0
                < self.total_notes
        &&& (self.current_page == 0 || (self.current_page - 1) * self.notes_per_page
            < self.total_notes)
        &&& self.notes_per_page + self.total_notes <= usize::MAX
    }

    /// A fresh loader: nothing resident, nothing handed out. Defaults:
    /// the cache holds five pages and two pages are read ahead.
    pub fn new(notes_per_page: usize, total_notes: usize) -> (r: LazyNoteLoader)
        requires
            notes_per_page * 5 <= usize::MAX,
            notes_per_page + total_notes <= usize::MAX,
        ensures
            r.wf(),
            r.notes_per_page == notes_per_page,
            r.total_notes == total_notes,
            r.current_page == 0,
            r.loaded_notes@.len() == 0,
            r.note_ids@.len() == 0,
            r.metadata_cache@.len() == 0,
            r.max_cache_size == notes_per_page * 5,
            r.prefetch_pages == 2,
    {
        LazyNoteLoader {
            notes_per_page,
            current_page: 0,
            total_notes,
            loaded_notes: Vec::new(),
            max_cache_size: notes_per_page * 5,
            note_ids: Vec::new(),
            prefetch_pages: 2,
            metadata_cache: Vec::new(),
        }
    }

    /// Starts over on a given identifier list. Metadata already cached
    /// is kept; the note cache and the page counter are reset.
    pub fn initialize(&mut self, note_ids: Vec<Uid>)
        requires
            old(self).notes_per_page + note_ids@.len() <= usize::MAX,
        ensures
            final(self).wf(),
            final(self).note_ids == note_ids,
            final(self).total_notes == note_ids@.len(),
            final(self).current_page == 0,
            final(self).loaded_notes@.len() == 0,
            final(self).metadata_cache == old(self).metadata_cache,
            final(self).notes_per_page == old(self).notes_per_page,
            final(self).max_cache_size == old(self).max_cache_size,
            final(self).prefetch_pages == old(self).prefetch_pages,
    {
        let total = note_ids.len();
        self.note_ids = note_ids;
        self.total_notes = total;
        self.loaded_notes = Vec::new();
        self.current_page = 0;
    }

    /// Starts over on a metadata listing: the identifier order and the
    /// metadata cache both come from it.
    pub fn initialize_with_metadata(&mut self, metadata: Vec<NoteMetadata>)
        requires
            old(self).notes_per_page + metadata@.len() <= usize::MAX,
        ensures
            final(self).wf(),
            final(self).note_ids@ == metadata@.map_values(|m: NoteMetadata| m.id),
            final(self).total_notes == metadata@.len(),
            final(self).current_page == 0,
            final(self).loaded_notes@.len() == 0,
            final(self).metadata_cache == metadata,
            final(self).notes_per_page == old(self).notes_per_page,
            final(self).max_cache_size == old(self).max_cache_size,
            final(self).prefetch_pages == old(self).prefetch_pages,
    {
        let mut ids: Vec<Uid> = Vec::new();
        let mut i: usize = 0;
        while i < metadata.len()
            invariant
                i <= metadata@.len(),
                ids@ =~= metadata@.subrange(0, i as int).map_values(|m: NoteMetadata| m.id),
            decreases metadata@.len() - i,
        {
            ids.push(metadata[i].id);
            proof {
                assert(metadata@.subrange(0, i + 1 as int) =~= metadata@.subrange(0, i as int).push(
                    metadata@[i as int],
                ));
            }
            i = i + 1;
        }
        proof {
            assert(metadata@.subrange(0, metadata@.len() as int) =~= metadata@);
        }
        let total = metadata.len();
        self.note_ids = ids;
        self.metadata_cache = metadata;
        self.total_notes = total;
        self.loaded_notes = Vec::new();
        self.current_page = 0;
    }

    /// Hands out the index range of the next unread page and advances
    /// the page counter, or reports that every page was handed out.
    pub fn take_next_page_range(&mut self) -> (r: Option<(usize, usize)>)
        requires
            old(self).wf(),
        ensures
            final(self).wf(),
            final(self).notes_per_page == old(self).notes_per_page,
            final(self).total_notes == old(self).total_notes,
            final(self).loaded_notes == old(self).loaded_notes,
            final(self).note_ids == old(self).note_ids,
            final(self).metadata_cache == old(self).metadata_cache,
            final(self).max_cache_size == old(self).max_cache_size,
            final(self).prefetch_pages == old(self).prefetch_pages,
            old(self).current_page * old(self).notes_per_page >= old(self).total_notes ==> r
                is None && final(self).current_page == old(self).current_page,
            old(self).current_page * old(self).notes_per_page < old(self).total_notes ==> {
                &&& r == Option::Some(
                    (
                        page_start(
                            old(self).notes_per_page as nat,
                            old(self).current_page as nat,
                        ) as usize,
                        page_end(
                            old(self).notes_per_page as nat,
                            old(self).total_notes as nat,
                            old(self).current_page as nat,
                        ) as usize,
                    ),
                )
                &&& final(self).current_page == old(self).current_page.saturating_add(1)
            },
    {
        proof {
            if self.current_page >= 1 {
                assert(self.current_page * self.notes_per_page == (self.current_page - 1)
                    * self.notes_per_page + self.notes_per_page) by (nonlinear_arith);
            } else {
                assert(self.current_page * self.notes_per_page == 0) by (nonlinear_arith)
                    requires self.current_page == 0;
            }
        }
        let start = self.current_page * self.notes_per_page;
        if start >= self.total_notes {
            return Option::None;
        }
        let end = if start + self.notes_per_page < self.total_notes {
            start + self.notes_per_page
        } else {
            self.total_notes
        };
        let ghost pre = self.current_page;
        self.current_page = self.current_page.saturating_add(1);
        proof {
            assert((self.current_page - 1) * self.notes_per_page <= pre * self.notes_per_page)
                by (nonlinear_arith)
                requires
                    self.current_page >= 1,
                    self.current_page - 1 <= pre,
            ;
        }
        Option::Some((start, end))
    }

    /// The index range a given page covers, clipped to the total count.
    pub fn page_range(&self, page: usize) -> (r: (usize, usize))
        requires
            self.wf(),
        ensures
            r.0 == vstd::math::min(
                page * self.notes_per_page as int,
                self.total_notes as int,
            ),
            r.1 == page_end(self.notes_per_page as nat, self.total_notes as nat, page as nat),
            r.0 <= r.1 <= self.total_notes,
    {
        match page.checked_mul(self.notes_per_page) {
            Option::Some(start) => {
                if start >= self.total_notes {
                    (self.total_notes, self.total_notes)
                } else if start + self.notes_per_page < self.total_notes {
                    (start, start + self.notes_per_page)
                } else {
                    (start, self.total_notes)
                }
            },
            Option::None => {
                proof {
                    assert(page * self.notes_per_page > usize::MAX ==> page * self.notes_per_page
                        >= self.total_notes) by (nonlinear_arith)
                        requires
                            self.total_notes <= usize::MAX,
                    ;
                }
                (self.total_notes, self.total_notes)
            },
        }
    }

    /// The identifier standing at an index, if the index is in range.
    pub fn note_id_at(&self, index: usize) -> (r: Option<Uid>)
        ensures
            r == if index < self.total_notes && index < self.note_ids@.len() {
                Option::Some(self.note_ids@[index as int])
            } else {
                Option::<Uid>::None
            },
    {
        if index < self.total_notes && index < self.note_ids.len() {
            Option::Some(self.note_ids[index])
        } else {
            Option::None
        }
    }

    /// The note cached under an index, if any.
    pub fn cached_note(&self, index: usize) -> (r: Option<Note>)
        requires
            self.wf(),
        ensures
            r == if cache_has(self.loaded_notes@, index) {
                Option::Some(cache_at(self.loaded_notes@, index))
            } else {
                Option::<Note>::None
            },
    {
        let mut i: usize = 0;
        while i < self.loaded_notes.len()
            invariant
                self.wf(),
                i <= self.loaded_notes@.len(),
                forall|j: int| 0 <= j < i ==> (#[trigger] self.loaded_notes@[j]).0 != index,
            decreases self.loaded_notes@.len() - i,
        {
            if self.loaded_notes[i].0 == index {
                proof {
                    lemma_cache_position(self.loaded_notes@, index, i as int);
                }
                return Option::Some(self.loaded_notes[i].1.duplicate());
            }
            i = i + 1;
        }
        Option::None
    }

    /// Whether the note at an index is resident in the cache.
    pub fn is_note_cached(&self, index: usize) -> (r: bool)
        requires
            self.wf(),
        ensures
            r == cache_has(self.loaded_notes@, index),
    {
        let mut i: usize = 0;
        while i < self.loaded_notes.len()
            invariant
                i <= self.loaded_notes@.len(),
                forall|j: int| 0 <= j < i ==> (#[trigger] self.loaded_notes@[j]).0 != index,
            decreases self.loaded_notes@.len() - i,
        {
            if self.loaded_notes[i].0 == index {
                return true;
            }
            i = i + 1;
        }
        false
    }

    /// Takes a note its caller loaded into the cache. The oldest
    /// resident note leaves when the cache is full; the resident count
    /// never exceeds `max_cache_size`. Out-of-range indexes, a cache
    /// of capacity zero, and indexes already resident change nothing.
    pub fn insert_loaded(&mut self, index: usize, note: Note)
        requires
            old(self).wf(),
        ensures
            final(self).wf(),
            final(self).loaded_notes@.len() <= final(self).max_cache_size,
            final(self).notes_per_page == old(self).notes_per_page,
            final(self).current_page == old(self).current_page,
            final(self).total_notes == old(self).total_notes,
            final(self).note_ids == old(self).note_ids,
            final(self).metadata_cache == old(self).metadata_cache,
            final(self).max_cache_size == old(self).max_cache_size,
            final(self).prefetch_pages == old(self).prefetch_pages,
            index >= old(self).total_notes || old(self).max_cache_size == 0 || cache_has(
                old(self).loaded_notes@,
                index,
            ) ==> final(self).loaded_notes == old(self).loaded_notes,
            index < old(self).total_notes && old(self).max_cache_size > 0 && !cache_has(
                old(self).loaded_notes@,
                index,
            ) ==> {
                &&& final(self).loaded_notes@ == if old(self).loaded_notes@.len()
                    < old(self).max_cache_size {
                    old(self).loaded_notes@.push((index, note))
                } else {
                    old(self).loaded_notes@.drop_first().push((index, note))
                }
                &&& cache_has(final(self).loaded_notes@, index)
                &&& cache_at(final(self).loaded_notes@, index) == note
            },
    {
        if index >= self.total_notes || self.max_cache_size == 0 {
            return ;
        }
        if self.is_note_cached(index) {
            return ;
        }
        let ghost pre = self.loaded_notes@;
        if self.loaded_notes.len() >= self.max_cache_size {
            let _evicted = self.loaded_notes.remove(0);
            proof {
                assert(self.loaded_notes@ =~= pre.drop_first());
            }
        }
        let ghost mid = self.loaded_notes@;
        self.loaded_notes.push((index, note));
        proof {
            assert forall|j: int|
                0 <= j < self.loaded_notes@.len() && self.loaded_notes@[j].0
                    == index implies j == self.loaded_notes@.len() - 1 by {
                if j < self.loaded_notes@.len() - 1 {
                    assert(mid[j] == pre[j + pre.len() - mid.len()]);
                    assert(cache_has(pre, index));
                }
            }
            lemma_cache_position(
                self.loaded_notes@,
                index,
                self.loaded_notes@.len() - 1,
            );
        }
    }

    /// The cached metadata of the note at an index. A pure lookup: no
    /// content is loaded.
    pub fn get_note_metadata(&self, index: usize) -> (r: Option<&NoteMetadata>)
        ensures
            match r {
                Option::Some(m) => index < self.total_notes && index < self.note_ids@.len()
                    && metadata_lookup(self.metadata_cache@, self.note_ids@[index as int])
                    == Option::Some(*m),
                Option::None => index >= self.total_notes || index >= self.note_ids@.len()
                    || metadata_lookup(self.metadata_cache@, self.note_ids@[index as int])
                    is None,
            },
    {
        if index >= self.total_notes || index >= self.note_ids.len() {
            return Option::None;
        }
        let id = self.note_ids[index];
        let ghost md = self.metadata_cache@;
        proof {
            assert(md.skip(0) =~= md);
        }
        let mut i: usize = 0;
        while i < self.metadata_cache.len()
            invariant
                md == self.metadata_cache@,
                i <= md.len(),
                index < self.total_notes,
                index < self.note_ids@.len(),
                id == self.note_ids@[index as int],
                metadata_lookup(md, id) == metadata_lookup(md.skip(i as int), id),
            decreases md.len() - i,
        {
            if self.metadata_cache[i].id == id {
                proof {
                    assert(md.skip(i as int)[0] == md[i as int]);
                    assert(metadata_lookup(md.skip(i as int), id) == Option::Some(md[i as int]));
                }
                return Option::Some(&self.metadata_cache[i]);
            }
            proof {
                assert(md.skip(i as int).drop_first() =~= md.skip(i + 1));
                assert(md.skip(i as int)[0] == md[i as int]);
            }
            i = i + 1;
        }
        proof {
            assert(md.skip(md.len() as int).len() == 0);
        }
        Option::None
    }

    /// Whether the consumer's visible range has come close enough to
    /// the loaded boundary that another page should be fetched.
    pub fn should_load_more(&self, visible_range: (usize, usize)) -> (r: bool)
        requires
            self.wf(),
            visible_range.1 + self.notes_per_page <= usize::MAX,
        ensures
            r == {
                let loaded_end = self.current_page * self.notes_per_page;
                visible_range.1 + self.notes_per_page >= loaded_end && loaded_end
                    < self.total_notes
            },
    {
        proof {
            if self.current_page >= 1 {
                assert(self.current_page * self.notes_per_page == (self.current_page - 1)
                    * self.notes_per_page + self.notes_per_page) by (nonlinear_arith);
            } else {
                assert(self.current_page * self.notes_per_page == 0) by (nonlinear_arith)
                    requires self.current_page == 0;
            }
        }
        let loaded_end = self.current_page * self.notes_per_page;
        let (_visible_start, visible_end) = visible_range;
        visible_end + self.notes_per_page >= loaded_end && loaded_end < self.total_notes
    }

    /// Drops every resident note; identifiers and metadata stay.
    pub fn clear_cache(&mut self)
        ensures
            *final(self) == (LazyNoteLoader { loaded_notes: final(self).loaded_notes, ..*old(self) }),
            final(self).loaded_notes@.len() == 0,
    {
        self.loaded_notes = Vec::new();
    }

    /// Back to the first page with an empty cache; identifiers and
    /// metadata stay.
    pub fn reset(&mut self)
        ensures
            *final(self) == (LazyNoteLoader {
                loaded_notes: final(self).loaded_notes,
                current_page: 0,
                ..*old(self)
            }),
            final(self).loaded_notes@.len() == 0,
    {
        self.current_page = 0;
        self.clear_cache();
    }

    /// The loader's progress counters.
    pub fn get_stats(&self) -> (r: LoaderStats)
        ensures
            r.total_notes == self.total_notes,
            r.loaded_notes == self.loaded_notes@.len(),
            r.current_page == self.current_page,
    {
        LoaderStats {
            total_notes: self.total_notes,
            loaded_notes: self.loaded_notes.len(),
            current_page: self.current_page,
        }
    }

    /// How many notes exist, loaded or not.
    pub fn total_count(&self) -> (r: usize)
        ensures
            r == self.total_notes,
    {
        self.total_notes
    }

    /// How many pages were handed out so far.
    pub fn loaded_pages(&self) -> (r: usize)
        ensures
            r == self.current_page,
    {
        self.current_page
    }
}

/// Law: paging covers everything exactly once. Every index below the
/// total falls inside the range of exactly one page — the one the
/// index-to-page division names — so reading pages in order until the
/// range runs out yields each note once, with none repeated and none
/// left out.
pub proof fn lemma_pages_cover(notes_per_page: nat, total: nat, n: nat)
    requires
        notes_per_page > 0,
        n < total,
    ensures
        page_start(notes_per_page, n / notes_per_page) <= n < page_end(
            notes_per_page,
            total,
            n / notes_per_page,
        ),
        forall|p: nat|
            #[trigger] page_start(notes_per_page, p) <= n < page_end(notes_per_page, total, p)
                ==> p == n / notes_per_page,
{
    let q = n / notes_per_page;
    vstd::arithmetic::div_mod::lemma_fundamental_div_mod(n as int, notes_per_page as int);
    vstd::arithmetic::div_mod::lemma_mod_bound(n as int, notes_per_page as int);
    assert(n == notes_per_page * q + n % notes_per_page);
    assert(0 <= n % notes_per_page < notes_per_page);
    assert(page_start(notes_per_page, q) == q * notes_per_page);
    assert(q * notes_per_page == notes_per_page * q) by (nonlinear_arith);
    assert(page_start(notes_per_page, q) <= n);
    assert(n < q * notes_per_page + notes_per_page);
    assert forall|p: nat|
        #[trigger] page_start(notes_per_page, p) <= n < page_end(notes_per_page, total, p)
        implies p == n / notes_per_page by {
        assert(p * notes_per_page <= n < p * notes_per_page + notes_per_page);
        vstd::arithmetic::div_mod::lemma_fundamental_div_mod_converse(
            n as int,
            notes_per_page as int,
            p as int,
            n - p * notes_per_page,
        );
    }
}

} // verus!
