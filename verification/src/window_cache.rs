//! Recency-ordered cache of window identifiers.
//!
//! The cache tracks the window set that the compositor reports, keeping a
//! most-recently-used order for the windows that persist across refreshes.
//! It holds the same identifiers twice: in a hash set for constant-time
//! membership tests and in a list that carries the order, front = most
//! recent.  The two views always contain exactly the same identifiers.

use std::collections::HashSet;
use vstd::prelude::*;

verus! {

broadcast use vstd::std_specs::hash::group_hash_axioms;

/// The cached windows that are still alive, in their cached order.
pub open spec fn retained_of(order: Seq<u64>, current: Seq<u64>) -> Seq<u64>
    decreases order.len(),
{
    if order.len() == 0 {
        Seq::empty()
    } else {
        let rest = retained_of(order.drop_last(), current);
        if current.contains(order.last()) {
            rest.push(order.last())
        } else {
            rest
        }
    }
}

/// The live windows that are not cached yet, in enumeration order.
pub open spec fn arrivals_of(order: Seq<u64>, current: Seq<u64>) -> Seq<u64>
    decreases current.len(),
{
    if current.len() == 0 {
        Seq::empty()
    } else {
        let rest = arrivals_of(order, current.drop_last());
        if order.contains(current.last()) {
            rest
        } else {
            rest.push(current.last())
        }
    }
}

/// The cached windows that are no longer alive, in their cached order.
pub open spec fn stale_of(order: Seq<u64>, current: Seq<u64>) -> Seq<u64>
    decreases order.len(),
{
    if order.len() == 0 {
        Seq::empty()
    } else {
        let rest = stale_of(order.drop_last(), current);
        if current.contains(order.last()) {
            rest
        } else {
            rest.push(order.last())
        }
    }
}

/// The order that reconciling `order` against the live set `current`
/// produces: windows that survive keep their relative order, stale windows
/// disappear, and windows never seen before are appended at the back in
/// the order `current` enumerates them.
pub open spec fn reconciled(order: Seq<u64>, current: Seq<u64>) -> Seq<u64> {
    retained_of(order, current) + arrivals_of(order, current)
}

/// The order after moving `id` to the front: `id` first, the others in
/// their old relative order.
pub open spec fn moved_to_front(order: Seq<u64>, id: u64) -> Seq<u64> {
    seq![id] + order.remove_value(id)
}

/// What `retained_of` keeps: exactly the elements that are both cached and
/// alive, without introducing duplicates.
pub proof fn lemma_retained_elements(order: Seq<u64>, current: Seq<u64>)
    ensures
        forall|x: u64|
            retained_of(order, current).contains(x) <==> order.contains(x) && current.contains(x),
        order.no_duplicates() ==> retained_of(order, current).no_duplicates(),
    decreases order.len(),
{
    broadcast use vstd::seq_lib::group_seq_properties;

    if order.len() == 0 {
    } else {
        let rest = order.drop_last();
        let last = order.last();
        lemma_retained_elements(rest, current);
        assert(rest.push(last) =~= order);
        if order.no_duplicates() {
            assert(rest.no_duplicates());
            assert(!rest.contains(last));
            if current.contains(last) {
                let kept = retained_of(rest, current);
                assert(!kept.contains(last));
                assert(forall|i: int, j: int|
                    0 <= i < kept.push(last).len() && 0 <= j < kept.push(last).len() && i != j
                        ==> kept.push(last)[i] != kept.push(last)[j]);
            }
        }
    }
}

/// What `arrivals_of` keeps: exactly the live elements that are not
/// cached, without introducing duplicates.
pub proof fn lemma_arrivals_elements(order: Seq<u64>, current: Seq<u64>)
    ensures
        forall|x: u64|
            arrivals_of(order, current).contains(x) <==> current.contains(x) && !order.contains(x),
        current.no_duplicates() ==> arrivals_of(order, current).no_duplicates(),
    decreases current.len(),
{
    broadcast use vstd::seq_lib::group_seq_properties;

    if current.len() == 0 {
    } else {
        let rest = current.drop_last();
        let last = current.last();
        lemma_arrivals_elements(order, rest);
        assert(rest.push(last) =~= current);
        if current.no_duplicates() {
            assert(rest.no_duplicates());
            assert(!rest.contains(last));
            if !order.contains(last) {
                let added = arrivals_of(order, rest);
                assert(!added.contains(last));
                assert(forall|i: int, j: int|
                    0 <= i < added.push(last).len() && 0 <= j < added.push(last).len() && i != j
                        ==> added.push(last)[i] != added.push(last)[j]);
            }
        }
    }
}

/// What `stale_of` keeps: exactly the cached elements that are no longer
/// alive.
pub proof fn lemma_stale_elements(order: Seq<u64>, current: Seq<u64>)
    ensures
        forall|x: u64|
            stale_of(order, current).contains(x) <==> order.contains(x) && !current.contains(x),
    decreases order.len(),
{
    broadcast use vstd::seq_lib::group_seq_properties;

    if order.len() == 0 {
    } else {
        let rest = order.drop_last();
        lemma_stale_elements(rest, current);
        assert(rest.push(order.last()) =~= order);
    }
}

/// Reconciling yields an order over exactly the live window set, still
/// free of duplicates.
pub proof fn lemma_reconciled_wf(order: Seq<u64>, current: Seq<u64>)
    requires
        order.no_duplicates(),
        current.no_duplicates(),
    ensures
        reconciled(order, current).no_duplicates(),
        forall|x: u64| reconciled(order, current).contains(x) <==> current.contains(x),
        reconciled(order, current).to_set() == current.to_set(),
{
    broadcast use vstd::seq_lib::group_seq_properties;

    let kept = retained_of(order, current);
    let added = arrivals_of(order, current);
    lemma_retained_elements(order, current);
    lemma_arrivals_elements(order, current);
    assert forall|i: int, j: int| 0 <= i < kept.len() && 0 <= j < added.len() implies kept[i]
        != added[j] by {
        assert(kept.contains(kept[i]));
        assert(added.contains(added[j]));
        assert(order.contains(kept[i]));
        assert(!order.contains(added[j]));
    }
    vstd::seq_lib::lemma_no_dup_in_concat(kept, added);
    assert forall|x: u64| reconciled(order, current).contains(x) <==> current.contains(
        x,
    ) by {
        assert(reconciled(order, current).contains(x) <==> kept.contains(x) || added.contains(x));
    }
    assert(reconciled(order, current).to_set() =~= current.to_set());
}

/// Reconciliation is idempotent: reconciling twice against the same live
/// set gives the same order as reconciling once.
pub proof fn lemma_reconcile_idempotent(order: Seq<u64>, current: Seq<u64>)
    requires
        order.no_duplicates(),
        current.no_duplicates(),
    ensures
        reconciled(reconciled(order, current), current) == reconciled(order, current),
{
    let once = reconciled(order, current);
    lemma_reconciled_wf(order, current);
    assert forall|i: int| 0 <= i < once.len() implies current.contains(#[trigger] once[i]) by {
        assert(once.contains(once[i]));
    }
    lemma_retained_identity(once, current);
    assert forall|i: int| 0 <= i < current.len() implies once.contains(#[trigger] current[i]) by {
        assert(current.contains(current[i]));
    }
    lemma_arrivals_empty(once, current);
    assert(reconciled(once, current) =~= once);
}

/// Reconciling against a set that already contains every cached window
/// keeps the whole order.
proof fn lemma_retained_identity(order: Seq<u64>, current: Seq<u64>)
    requires
        forall|i: int| 0 <= i < order.len() ==> current.contains(#[trigger] order[i]),
    ensures
        retained_of(order, current) == order,
    decreases order.len(),
{
    if order.len() == 0 {
        assert(retained_of(order, current) =~= order);
    } else {
        let rest = order.drop_last();
        lemma_retained_identity(rest, current);
        assert(current.contains(order.last()));
        assert(rest.push(order.last()) =~= order);
    }
}

/// When every live window is already cached, nothing arrives.
proof fn lemma_arrivals_empty(order: Seq<u64>, current: Seq<u64>)
    requires
        forall|i: int| 0 <= i < current.len() ==> order.contains(#[trigger] current[i]),
    ensures
        arrivals_of(order, current) == Seq::<u64>::empty(),
    decreases current.len(),
{
    if current.len() == 0 {
        assert(arrivals_of(order, current) =~= Seq::<u64>::empty());
    } else {
        let rest = current.drop_last();
        lemma_arrivals_empty(order, rest);
        assert(order.contains(current.last()));
    }
}

/// Moving a cached window to the front reorders the cache without
/// changing the set of windows it holds.
pub proof fn lemma_moved_to_front_wf(order: Seq<u64>, id: u64)
    requires
        order.no_duplicates(),
        order.contains(id),
    ensures
        moved_to_front(order, id).no_duplicates(),
        moved_to_front(order, id).to_set() == order.to_set(),
        moved_to_front(order, id).len() == order.len(),
        forall|x: u64| moved_to_front(order, id).contains(x) <==> order.contains(x),
{
    broadcast use vstd::seq_lib::group_to_multiset_ensures;

    order.index_of_first_ensures(id);
    let k = order.index_of_first(id).unwrap();
    let rest = order.remove(k);
    let moved = moved_to_front(order, id);
    assert(moved =~= rest.insert(0, id));
    assert(rest.insert(0, id).to_multiset() =~= rest.to_multiset().insert(id));
    assert(rest.to_multiset() =~= order.to_multiset().remove(id));
    assert(order.to_multiset().contains(id));
    assert(moved.to_multiset() =~= order.to_multiset());
    order.lemma_multiset_has_no_duplicates();
    moved.lemma_multiset_has_no_duplicates_conv();
    assert forall|x: u64| moved.contains(x) <==> order.contains(x) by {
        assert(moved.contains(x) <==> moved.to_multiset().count(x) > 0);
        assert(order.contains(x) <==> order.to_multiset().count(x) > 0);
    }
    assert(moved.to_set() =~= order.to_set());
}

/// Window cache keeps track of the window list displayed to the user
/// so that it can be saved and changed if needed.
pub struct WindowCache {
    /// The ID set allows for quick lookups of cached IDs
    window_id_set: HashSet<u64>,
    /// The window ID list keeps track of the order
    window_id_list: Vec<u64>,
}

impl View for WindowCache {
    type V = Seq<u64>;

    /// Abstractly, the cache is its recency order, front first.
    closed spec fn view(&self) -> Seq<u64> {
        self.window_id_list@
    }
}

/// First position of `window_id` in `list`, if any.
fn position_of(list: &Vec<u64>, window_id: u64) -> (position: Option<usize>)
    ensures
        match position {
            Some(i) => i < list@.len() && list@[i as int] == window_id && forall|j: int|
                0 <= j < i ==> list@[j] != window_id,
            None => !list@.contains(window_id),
        },
{
    let mut i: usize = 0;
    while i < list.len()
        invariant
            i <= list@.len(),
            forall|j: int| 0 <= j < i ==> list@[j] != window_id,
        decreases list@.len() - i,
    {
        if list[i] == window_id {
            return Some(i);
        }
        i += 1;
    }
    None
}

impl WindowCache {
    /// The two views of the cache agree: the order carries no duplicates
    /// and the membership set holds exactly the ordered identifiers.
    pub closed spec fn wf(&self) -> bool {
        &&& self.window_id_list@.no_duplicates()
        &&& self.window_id_set@ == self.window_id_list@.to_set()
    }

    /// The membership set's contents.
    pub closed spec fn id_set(&self) -> Set<u64> {
        self.window_id_set@
    }

    pub fn new() -> (cache: Self)
        ensures
            cache.wf(),
            cache@ == Seq::<u64>::empty(),
    {
        let cache = Self { window_id_set: HashSet::new(), window_id_list: Vec::new() };
        proof {
            assert(cache.window_id_list@.to_set() =~= Set::<u64>::empty());
        }
        cache
    }

    /// Set/order consistency: a well-formed cache never lists a window
    /// twice, its membership set holds exactly the ordered identifiers,
    /// and the two views have equal cardinality.
    pub proof fn lemma_wf_consistency(&self)
        requires
            self.wf(),
        ensures
            self@.no_duplicates(),
            self.id_set() == self@.to_set(),
            self.id_set().finite(),
            self.id_set().len() == self@.len(),
    {
        broadcast use vstd::seq_lib::seq_to_set_is_finite;

        self@.unique_seq_to_set();
    }

    /// Whether `window_id` is cached.
    pub fn contains(&self, window_id: u64) -> (present: bool)
        requires
            self.wf(),
        ensures
            present == self@.contains(window_id),
    {
        let present = self.window_id_set.contains(&window_id);
        proof {
            assert(self@.to_set().contains(window_id) == self@.contains(window_id));
        }
        present
    }

    /// How many windows are cached.
    pub fn len(&self) -> (n: usize)
        ensures
            n == self@.len(),
    {
        self.window_id_list.len()
    }

    /// The current recency order, front (most recent) to back.
    pub fn snapshot_order(&self) -> (order: Vec<u64>)
        ensures
            order@ == self@,
    {
        let mut order: Vec<u64> = Vec::new();
        let mut i: usize = 0;
        while i < self.window_id_list.len()
            invariant
                i <= self@.len(),
                order@ == self@.subrange(0, i as int),
            decreases self@.len() - i,
        {
            order.push(self.window_id_list[i]);
            proof {
                assert(self@.subrange(0, i + 1 as int) =~= self@.subrange(0, i as int).push(
                    self@[i as int],
                ));
            }
            i += 1;
        }
        proof {
            assert(self@.subrange(0, self@.len() as int) =~= self@);
        }
        order
    }

    /// Get the IDs that are not cached yet, in the order `current_windows`
    /// enumerates them.
    pub fn get_new_windows(&self, current_windows: &Vec<u64>) -> (new_windows: Vec<u64>)
        requires
            self.wf(),
        ensures
            new_windows@ == arrivals_of(self@, current_windows@),
    {
        let mut new_windows: Vec<u64> = Vec::new();
        let mut i: usize = 0;
        while i < current_windows.len()
            invariant
                self.wf(),
                i <= current_windows@.len(),
                new_windows@ == arrivals_of(self@, current_windows@.subrange(0, i as int)),
            decreases current_windows@.len() - i,
        {
            let id = current_windows[i];
            let cached = self.window_id_set.contains(&id);
            proof {
                assert(self@.to_set().contains(id) == self@.contains(id));
                assert(current_windows@.subrange(0, i + 1 as int).drop_last()
                    =~= current_windows@.subrange(0, i as int));
            }
            if !cached {
                new_windows.push(id);
            }
            i += 1;
        }
        proof {
            assert(current_windows@.subrange(0, current_windows@.len() as int)
                =~= current_windows@);
        }
        new_windows
    }

    /// Get the cached IDs that are not present in the provided list, in
    /// their cached order.
    pub fn get_obsolete_windows(&self, current_windows: &Vec<u64>) -> (obsolete_windows: Vec<u64>)
        ensures
            obsolete_windows@ == stale_of(self@, current_windows@),
    {
        let mut obsolete_windows: Vec<u64> = Vec::new();
        let mut i: usize = 0;
        while i < self.window_id_list.len()
            invariant
                i <= self@.len(),
                obsolete_windows@ == stale_of(self@.subrange(0, i as int), current_windows@),
            decreases self@.len() - i,
        {
            let id = self.window_id_list[i];
            let alive = position_of(current_windows, id);
            proof {
                assert(self@.subrange(0, i + 1 as int).drop_last() =~= self@.subrange(0, i as int));
            }
            if alive.is_none() {
                obsolete_windows.push(id);
            }
            i += 1;
        }
        proof {
            assert(self@.subrange(0, self@.len() as int) =~= self@);
        }
        obsolete_windows
    }

    /// Given the list of live window IDs, update the cache: stale windows
    /// leave the order, surviving windows keep their relative order, and
    /// new windows are appended at the back in enumeration order.
    pub fn update_cache(&mut self, current_windows: Vec<u64>)
        requires
            old(self).wf(),
            current_windows@.no_duplicates(),
        ensures
            final(self).wf(),
            final(self)@ == reconciled(old(self)@, current_windows@),
    {
        let ghost old_order = self.window_id_list@;
        let ghost cur = current_windows@;

        /* Membership set of the live windows */
        let mut current_set: HashSet<u64> = HashSet::new();
        let mut i: usize = 0;
        proof {
            assert(current_set@ =~= cur.subrange(0, 0).to_set());
        }
        while i < current_windows.len()
            invariant
                i <= cur.len(),
                cur == current_windows@,
                current_set@ == cur.subrange(0, i as int).to_set(),
            decreases cur.len() - i,
        {
            current_set.insert(current_windows[i]);
            proof {
                broadcast use vstd::prelude::Seq::lemma_push_to_set_commute;

                assert(cur.subrange(0, i + 1 as int) =~= cur.subrange(0, i as int).push(
                    cur[i as int],
                ));
            }
            i += 1;
        }
        proof {
            assert(cur.subrange(0, cur.len() as int) =~= cur);
        }

        /* Keep the still-alive windows, in their cached order */
        let mut retained: Vec<u64> = Vec::new();
        let mut j: usize = 0;
        while j < self.window_id_list.len()
            invariant
                j <= old_order.len(),
                self.window_id_list@ == old_order,
                current_set@ == cur.to_set(),
                retained@ == retained_of(old_order.subrange(0, j as int), cur),
            decreases old_order.len() - j,
        {
            let id = self.window_id_list[j];
            let alive = current_set.contains(&id);
            proof {
                assert(cur.to_set().contains(id) == cur.contains(id));
                assert(old_order.subrange(0, j + 1 as int).drop_last() =~= old_order.subrange(
                    0,
                    j as int,
                ));
            }
            if alive {
                retained.push(id);
            }
            j += 1;
        }
        proof {
            assert(old_order.subrange(0, old_order.len() as int) =~= old_order);
        }

        /* Append the windows never seen before */
        let mut new_windows = self.get_new_windows(&current_windows);
        retained.append(&mut new_windows);

        /* Overwrite both views */
        self.window_id_list = retained;
        self.window_id_set = current_set;

        proof {
            lemma_reconciled_wf(old_order, cur);
        }
    }

    /// Move the given window ID to the front of the order; the window
    /// must be cached.
    pub fn move_to_front(&mut self, window_id: &u64)
        requires
            old(self).wf(),
            old(self)@.contains(*window_id),
        ensures
            final(self).wf(),
            final(self)@ == moved_to_front(old(self)@, *window_id),
    {
        let ghost old_order = self.window_id_list@;
        let id = *window_id;
        let position = position_of(&self.window_id_list, id);
        let index = match position {
            Some(index) => index,
            None => {
                proof {
                    assert(false);
                }
                0
            },
        };
        self.window_id_list.remove(index);
        self.window_id_list.insert(0, id);
        proof {
            old_order.index_of_first_ensures(id);
            let k = old_order.index_of_first(id).unwrap();
            assert(k == index) by {
                if k < index {
                    assert(old_order[k] == id);
                } else if index < k {
                    assert(old_order[index as int] == id);
                }
            }
            assert(old_order.remove_value(id) == old_order.remove(index as int));
            assert(self.window_id_list@ =~= seq![id] + old_order.remove(index as int));
            lemma_moved_to_front_wf(old_order, id);
        }
    }
}

impl Default for WindowCache {
    /// A fresh cache is empty.
    fn default() -> (cache: Self)
        ensures
            cache.wf(),
            cache@ == Seq::<u64>::empty(),
    {
        Self::new()
    }
}

} // verus!
