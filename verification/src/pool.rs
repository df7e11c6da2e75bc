//! The buffer pool: the pages that are held in memory.
//!
//! The pool maps page identifiers to the bytes of their pages and remembers
//! in which order the pages were last asked for. When a page has to be
//! loaded and the pool is full, the page that was asked for longest ago
//! leaves.

use vstd::prelude::*;
use std::collections::hash_map::Entry;
use std::collections::HashMap;

verus! {

/// What a pool holds, as plain values.
pub struct PoolState {
    /// The pages of the pool, by their identifiers.
    pub pages: Map<u64, Vec<u8>>,
    /// The identifiers of those pages, least recently used first.
    pub recency: Seq<u64>,
}

/// Index of `id` in `order`.
pub open spec fn position_of(order: Seq<u64>, id: u64) -> int {
    choose|i: int| 0 <= i < order.len() && order[i] == id
}

impl PoolState {
    /// Every page of the pool is listed once in the order of use, and
    /// nothing else is.
    pub open spec fn well_formed(self) -> bool {
        &&& self.recency.no_duplicates()
        &&& forall|id: u64| self.pages.contains_key(id) <==> self.recency.contains(id)
    }

    /// Number of pages in the pool.
    pub open spec fn len(self) -> nat {
        self.recency.len()
    }

    /// The pool after page `id` was used: it is now the most recently used.
    pub open spec fn touched(self, id: u64) -> PoolState {
        PoolState {
            pages: self.pages,
            recency: self.recency.remove(position_of(self.recency, id)).push(id),
        }
    }

    /// The pool with `page` in the place of page `id`.
    pub open spec fn with_page(self, id: u64, page: Vec<u8>) -> PoolState {
        PoolState { pages: self.pages.insert(id, page), recency: self.recency }
    }

    /// The pool once room is made for a new page: where it holds
    /// `max_cache_size` pages or more, the least recently used page leaves.
    pub open spec fn with_room(self, max_cache_size: nat) -> PoolState {
        if self.len() >= max_cache_size && self.len() > 0 {
            PoolState {
                pages: self.pages.remove(self.recency[0]),
                recency: self.recency.drop_first(),
            }
        } else {
            self
        }
    }

    /// The pool after `page` was loaded as page `id`: room is made, then the
    /// page enters as the most recently used.
    pub open spec fn with_loaded(self, max_cache_size: nat, id: u64, page: Vec<u8>) -> PoolState {
        let room = self.with_room(max_cache_size);
        PoolState { pages: room.pages.insert(id, page), recency: room.recency.push(id) }
    }
}

/// In an order without duplicates, the position of an identifier is the one
/// index where it stands.
pub proof fn lemma_position_of(order: Seq<u64>, index: int)
    requires
        order.no_duplicates(),
        0 <= index < order.len(),
    ensures
        position_of(order, order[index]) == index,
{
}

/// Using a page keeps the pool well formed and its pages the same.
pub proof fn lemma_touched(state: PoolState, id: u64)
    requires
        state.well_formed(),
        state.pages.contains_key(id),
    ensures
        state.touched(id).well_formed(),
        state.touched(id).len() == state.len(),
        state.touched(id).recency.last() == id,
{
    let order = state.recency;
    let at: int = position_of(order, id);
    let rest = order.remove(at);
    let after = rest.push(id);
    assert(order.contains(id));
    order.remove_ensures(at);
    assert forall|i: int, j: int| 0 <= i < after.len() && 0 <= j < after.len() && i != j implies after[i]
        != after[j] by {
        let source_i: int = if i < at {
            i
        } else if i < rest.len() {
            i + 1
        } else {
            at
        };
        let source_j: int = if j < at {
            j
        } else if j < rest.len() {
            j + 1
        } else {
            at
        };
        assert(after[i] == order[source_i]);
        assert(after[j] == order[source_j]);
    }
    assert forall|other: u64| state.pages.contains_key(other) <==> after.contains(other) by {
        if order.contains(other) {
            let k: int = choose|k: int| 0 <= k < order.len() && order[k] == other;
            if k < at {
                assert(after[k] == other);
            } else if k == at {
                assert(after[rest.len() as int] == other);
            } else {
                assert(after[k - 1] == other);
            }
        }
        if after.contains(other) {
            let k: int = choose|k: int| 0 <= k < after.len() && after[k] == other;
            if k < at {
                assert(order[k] == other);
            } else if k < rest.len() {
                assert(order[k + 1] == other);
            } else {
                assert(order[at] == other);
            }
        }
    }
}

/// Making room keeps the pool well formed, and leaves fewer than
/// `max_cache_size` pages where the pool held no more than that and the limit
/// is not 0.
pub proof fn lemma_with_room(state: PoolState, max_cache_size: nat)
    requires
        state.well_formed(),
    ensures
        state.with_room(max_cache_size).well_formed(),
        state.with_room(max_cache_size).len() <= state.len(),
        state.len() <= max_cache_size && max_cache_size > 0 ==> state.with_room(max_cache_size).len()
            < max_cache_size,
        forall|id: u64|
            state.with_room(max_cache_size).pages.contains_key(id) ==> state.pages.contains_key(id),
{
    let after = state.with_room(max_cache_size);
    if state.len() >= max_cache_size && state.len() > 0 {
        let order = state.recency;
        let rest = order.drop_first();
        assert forall|id: u64| after.pages.contains_key(id) <==> rest.contains(id) by {
            if rest.contains(id) {
                let k: int = choose|k: int| 0 <= k < rest.len() && rest[k] == id;
                assert(order[k + 1] == id);
                assert(order.contains(id));
                assert(order[0] != order[k + 1]);
                assert(state.pages.contains_key(id));
                assert(after.pages.contains_key(id));
            }
            if after.pages.contains_key(id) {
                assert(state.pages.contains_key(id));
                assert(order.contains(id));
                let k: int = choose|k: int| 0 <= k < order.len() && order[k] == id;
                assert(k > 0);
                assert(rest[k - 1] == id);
                assert(rest.contains(id));
            }
        }
    }
}

/// The pool stays bounded and well formed: after a page that was not in it
/// is loaded, the page is in the pool as the most recently used, and a pool
/// that held at most `max_cache_size` pages still does, or holds that one
/// page where the limit is 0.
pub proof fn lemma_with_loaded(state: PoolState, max_cache_size: nat, id: u64, page: Vec<u8>)
    requires
        state.well_formed(),
        !state.pages.contains_key(id),
    ensures
        state.with_loaded(max_cache_size, id, page).well_formed(),
        state.with_loaded(max_cache_size, id, page).pages.contains_key(id),
        state.with_loaded(max_cache_size, id, page).pages[id] == page,
        state.with_loaded(max_cache_size, id, page).recency.last() == id,
        state.with_loaded(max_cache_size, id, page).len() <= state.len() + 1,
        state.len() <= max_cache_size && max_cache_size > 0 ==> state.with_loaded(
            max_cache_size,
            id,
            page,
        ).len() <= max_cache_size,
        state.len() <= 1 && max_cache_size <= 1 ==> state.with_loaded(max_cache_size, id, page).len()
            == 1,
{
    let room = state.with_room(max_cache_size);
    let after = state.with_loaded(max_cache_size, id, page);
    lemma_with_room(state, max_cache_size);
    assert(!room.recency.contains(id));
    assert forall|other: u64| after.pages.contains_key(other) <==> after.recency.contains(
        other,
    ) by {
        if after.recency.contains(other) {
            let k: int = choose|k: int| 0 <= k < after.recency.len() && after.recency[k] == other;
            if k < room.recency.len() {
                assert(room.recency[k] == other);
                assert(room.recency.contains(other));
                assert(room.pages.contains_key(other));
            } else {
                assert(other == id);
            }
            assert(after.pages.contains_key(other));
        }
        if after.pages.contains_key(other) {
            if other == id {
                assert(after.recency[room.recency.len() as int] == id);
            } else {
                assert(room.pages.contains_key(other));
                assert(room.recency.contains(other));
                let k: int = choose|k: int| 0 <= k < room.recency.len() && room.recency[k] == other;
                assert(after.recency[k] == other);
            }
        }
    }
}

/// The pages that are held in memory, with the order in which they were last
/// used.
pub struct BufferPool {
    /// The bytes of each page in the pool.
    pages: HashMap<u64, Vec<u8>>,
    /// The identifiers of the pages in the pool, least recently used first.
    recency: Vec<u64>,
}

impl View for BufferPool {
    type V = PoolState;

    closed spec fn view(&self) -> PoolState {
        PoolState { pages: self.pages@, recency: self.recency@ }
    }
}

impl BufferPool {
    /// An empty pool.
    pub fn new() -> (pool: BufferPool)
        ensures
            pool@.pages == Map::<u64, Vec<u8>>::empty(),
            pool@.recency == Seq::<u64>::empty(),
            pool@.well_formed(),
    {
        let pool = BufferPool { pages: HashMap::new(), recency: Vec::new() };
        assert(pool@.well_formed());
        pool
    }

    /// Number of pages in the pool.
    pub fn len(&self) -> (len: usize)
        ensures
            len == self@.len(),
    {
        self.recency.len()
    }

    /// Whether page `page_id` is in the pool.
    pub fn contains_key(&self, page_id: u64) -> (found: bool)
        ensures
            found == self@.pages.contains_key(page_id),
    {
        broadcast use vstd::std_specs::hash::group_hash_axioms;

        self.pages.contains_key(&page_id)
    }

    /// The bytes of page `page_id`, where it is in the pool. Looking at a
    /// page does not count as using it.
    pub fn get(&self, page_id: u64) -> (page: Option<&Vec<u8>>)
        ensures
            match page {
                Some(page) => self@.pages.contains_key(page_id) && *page == self@.pages[page_id],
                None => !self@.pages.contains_key(page_id),
            },
    {
        broadcast use vstd::std_specs::hash::group_hash_axioms;

        self.pages.get(&page_id)
    }

    /// The identifiers of the pages in the pool, least recently used first.
    pub fn page_ids(&self) -> (ids: Vec<u64>)
        ensures
            ids@ == self@.recency,
    {
        self.recency.clone()
    }

    /// Marks page `page_id` as the most recently used.
    pub fn touch(&mut self, page_id: u64)
        requires
            old(self)@.well_formed(),
            old(self)@.pages.contains_key(page_id),
        ensures
            final(self)@ == old(self)@.touched(page_id),
            final(self)@.well_formed(),
    {
        let count: usize = self.recency.len();
        let mut at: usize = 0;
        assert(self@.recency.contains(page_id));
        while at < count && self.recency[at] != page_id
            invariant
                at <= count,
                count == self.recency@.len(),
                *self == *old(self),
                self@.recency.contains(page_id),
                forall|i: int| 0 <= i < at ==> self.recency@[i] != page_id,
            decreases count - at,
        {
            at += 1;
        }
        proof {
            lemma_position_of(self@.recency, at as int);
            lemma_touched(self@, page_id);
        }
        self.recency.remove(at);
        self.recency.push(page_id);
    }

    /// Makes room for a new page: where the pool holds `max_cache_size`
    /// pages or more, the least recently used page leaves it.
    pub fn make_room(&mut self, max_cache_size: usize)
        requires
            old(self)@.well_formed(),
        ensures
            final(self)@ == old(self)@.with_room(max_cache_size as nat),
            final(self)@.well_formed(),
    {
        broadcast use vstd::std_specs::hash::group_hash_axioms;

        proof {
            lemma_with_room(self@, max_cache_size as nat);
        }
        if self.recency.len() >= max_cache_size && self.recency.len() > 0 {
            let victim: u64 = self.recency.remove(0);
            self.pages.remove(&victim);
            assert(self.recency@ =~= old(self).recency@.drop_first());
        }
    }

    /// Takes what a load of page `page_id` gave: a loaded page enters the
    /// pool as the most recently used, after room was made for it, and is
    /// handed out; a failed load leaves the pool as it was and is handed on.
    pub fn insert_loaded<E>(
        &mut self,
        max_cache_size: usize,
        page_id: u64,
        loaded: Result<Vec<u8>, E>,
    ) -> (page: Result<&mut Vec<u8>, E>)
        requires
            old(self)@.well_formed(),
            !old(self)@.pages.contains_key(page_id),
        ensures
            match page {
                Ok(page) => {
                    &&& loaded == Ok::<Vec<u8>, E>(*page)
                    &&& final(self)@ == old(self)@.with_loaded(
                        max_cache_size as nat,
                        page_id,
                        *final(page),
                    )
                },
                Err(error) => loaded == Err::<Vec<u8>, E>(error) && *final(self) == *old(self),
            },
            final(self)@.well_formed(),
    {
        broadcast use vstd::std_specs::hash::group_hash_axioms;

        let page_data: Vec<u8> = match loaded {
            Ok(page_data) => page_data,
            Err(error) => {
                return Err(error);
            },
        };
        self.make_room(max_cache_size);
        self.recency.push(page_id);
        proof {
            lemma_with_room(old(self)@, max_cache_size as nat);
        }
        let page: &mut Vec<u8> = self.pages.entry(page_id).or_insert(page_data);
        proof {
            lemma_with_loaded(old(self)@, max_cache_size as nat, page_id, *final(page));
        }
        Ok(page)
    }

    /// The bytes of page `page_id`, which is in the pool, for reading and
    /// writing. The page becomes the most recently used.
    pub fn get_mut(&mut self, page_id: u64) -> (page: &mut Vec<u8>)
        requires
            old(self)@.well_formed(),
            old(self)@.pages.contains_key(page_id),
        ensures
            *page == old(self)@.pages[page_id],
            final(self)@ == old(self)@.touched(page_id).with_page(page_id, *final(page)),
            final(self)@.well_formed(),
    {
        broadcast use vstd::std_specs::hash::group_hash_axioms;

        self.touch(page_id);
        match self.pages.entry(page_id) {
            Entry::Occupied(entry) => {
                let page: &mut Vec<u8> = entry.into_mut();
                proof {
                    lemma_touched(old(self)@, page_id);
                    assert(old(self)@.pages.insert(page_id, *final(page)).dom() =~= old(
                        self,
                    )@.pages.dom());
                }
                page
            },
            Entry::Vacant(_) => vstd::pervasive::unreached(),
        }
    }
}

} // verus!
