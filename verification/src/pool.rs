//! A pool of reusable objects, each of which is either active or free.
//!
//! Free slots are reused before the pool grows, so objects keep their slot
//! for as long as they are active and the pool only grows when every slot
//! is taken.

use vstd::prelude::*;

verus! {

/// Something that can sit in an [`ObjectPool`]: it carries an active flag.
pub trait PoolItem: Sized {
    /// Whether the item is in use.
    spec fn live(&self) -> bool;

    /// The same item with its active flag set to `active`.
    spec fn with_active(&self, active: bool) -> Self;

    /// Setting the flag is what `live` then reads back.
    proof fn lemma_with_active(&self, active: bool)
        ensures
            self.with_active(active).live() == active,
    ;

    fn is_active(&self) -> (r: bool)
        ensures
            r == self.live(),
    ;

    fn set_active(&mut self, active: bool)
        ensures
            *final(self) == old(self).with_active(active),
    ;
}

/// A pooled value together with its active flag.
#[derive(Clone, Copy)]
pub struct Slot<P> {
    pub active: bool,
    pub payload: P,
}

impl<P> PoolItem for Slot<P> {
    open spec fn live(&self) -> bool {
        self.active
    }

    open spec fn with_active(&self, active: bool) -> Self {
        Slot { active, payload: self.payload }
    }

    proof fn lemma_with_active(&self, active: bool) {
    }

    fn is_active(&self) -> (r: bool) {
        self.active
    }

    fn set_active(&mut self, active: bool) {
        self.active = active;
    }
}

/// The active items of `s`, in slot order.
pub open spec fn active_items<T: PoolItem>(s: Seq<T>) -> Seq<T>
    decreases s.len(),
{
    if s.len() == 0 {
        Seq::empty()
    } else if s.last().live() {
        active_items(s.drop_last()).push(s.last())
    } else {
        active_items(s.drop_last())
    }
}

/// `i` is the lowest slot of `s` that is free.
pub open spec fn is_first_free<T: PoolItem>(s: Seq<T>, i: int) -> bool {
    &&& 0 <= i < s.len()
    &&& !s[i].live()
    &&& forall|j: int| 0 <= j < i ==> #[trigger] s[j].live()
}

/// Every slot of `s` is in use.
pub open spec fn all_live<T: PoolItem>(s: Seq<T>) -> bool {
    forall|j: int| 0 <= j < s.len() ==> #[trigger] s[j].live()
}

/// Slot `i` of `s` holds the active object at position `k` among the active
/// objects (counted in slot order from 0).
pub open spec fn is_nth_live<T: PoolItem>(s: Seq<T>, k: int, i: int) -> bool {
    &&& 0 <= i < s.len()
    &&& s[i].live()
    &&& active_items(s.subrange(0, i)).len() == k
}

/// The active objects of a prefix come first, in order, among the active
/// objects of the whole.
pub proof fn lemma_active_items_prefix<T: PoolItem>(s: Seq<T>, j: int)
    requires
        0 <= j <= s.len(),
    ensures
        active_items(s.subrange(0, j)).len() <= active_items(s).len(),
        forall|k: int| 0 <= k < active_items(s.subrange(0, j)).len()
            ==> #[trigger] active_items(s)[k] == active_items(s.subrange(0, j))[k],
    decreases s.len() - j,
{
    if j < s.len() {
        lemma_active_items_prefix(s, j + 1);
        assert(s.subrange(0, j + 1).drop_last() =~= s.subrange(0, j));
    } else {
        assert(s.subrange(0, j) =~= s);
    }
}

/// Freeing slots never adds active objects.
pub proof fn lemma_active_count_shrinks<T: PoolItem>(s: Seq<T>, t: Seq<T>)
    requires
        s.len() == t.len(),
        forall|i: int| 0 <= i < s.len() && #[trigger] t[i].live() ==> s[i].live(),
    ensures
        active_items(t).len() <= active_items(s).len(),
    decreases s.len(),
{
    if s.len() > 0 {
        lemma_active_count_shrinks(s.drop_last(), t.drop_last());
    }
}

/// Replacing one slot changes the number of active objects by what leaves
/// and what comes in.
pub proof fn lemma_active_count_update<T: PoolItem>(s: Seq<T>, i: int, x: T)
    requires
        0 <= i < s.len(),
    ensures
        active_items(s.update(i, x)).len() + (if s[i].live() { 1int } else { 0 })
            == active_items(s).len() + (if x.live() { 1int } else { 0 }),
    decreases s.len(),
{
    let t = s.update(i, x);
    if i == s.len() - 1 {
        assert(t.drop_last() =~= s.drop_last());
    } else {
        lemma_active_count_update(s.drop_last(), i, x);
        assert(t.drop_last() =~= s.drop_last().update(i, x));
    }
}

/// Appending an object appends it to the active objects when it is active.
pub proof fn lemma_active_items_push<T: PoolItem>(s: Seq<T>, x: T)
    ensures
        active_items(s.push(x)) == if x.live() { active_items(s).push(x) } else { active_items(s) },
{
    assert(s.push(x).drop_last() =~= s);
}

/// A pool whose slots are all free has no active objects.
pub proof fn lemma_no_live_no_items<T: PoolItem>(s: Seq<T>)
    requires
        forall|j: int| 0 <= j < s.len() ==> !(#[trigger] s[j].live()),
    ensures
        active_items(s) == Seq::<T>::empty(),
    decreases s.len(),
{
    if s.len() > 0 {
        lemma_no_live_no_items(s.drop_last());
    }
}

/// A pool of objects with an active flag each.
pub struct ObjectPool<T> {
    objects: Vec<T>,
}

impl<T> View for ObjectPool<T> {
    type V = Seq<T>;

    closed spec fn view(&self) -> Seq<T> {
        self.objects@
    }
}

impl<T: PoolItem + Copy> ObjectPool<T> {
    /// An empty pool with room for `capacity` objects before it reallocates.
    pub fn with_capacity(capacity: usize) -> (pool: Self)
        ensures
            pool@ == Seq::<T>::empty(),
    {
        ObjectPool { objects: Vec::with_capacity(capacity) }
    }

    /// Puts `object` in the lowest free slot, or appends it when every slot
    /// is in use.
    pub fn activate(&mut self, object: T)
        ensures
            forall|i: int| is_first_free(old(self)@, i) ==> final(self)@ == old(self)@.update(i, object),
            all_live(old(self)@) ==> final(self)@ == old(self)@.push(object),
            final(self)@.len() == old(self)@.len() + if all_live(old(self)@) { 1int } else { 0 },
            object.live() ==> active_items(final(self)@).len() == active_items(old(self)@).len() + 1,
    {
        let n = self.objects.len();
        let mut i: usize = 0;
        while i < n
            invariant
                n == self.objects.len(),
                self.objects@ == old(self)@,
                i <= n,
                forall|j: int| 0 <= j < i ==> #[trigger] self.objects@[j].live(),
            decreases n - i,
        {
            if !self.objects[i].is_active() {
                proof {
                    lemma_active_count_update(self.objects@, i as int, object);
                    assert(!all_live(old(self)@));
                }
                self.objects.set(i, object);
                return;
            }
            i = i + 1;
        }
        proof {
            lemma_active_items_push(self.objects@, object);
            assert forall|j: int| !is_first_free(old(self)@, j) by {}
        }
        self.objects.push(object);
    }

    /// Copies of the active objects, in slot order.
    pub fn active(&self) -> (items: Vec<T>)
        ensures
            items@ == active_items(self@),
    {
        let n = self.objects.len();
        let mut items: Vec<T> = Vec::new();
        let mut i: usize = 0;
        while i < n
            invariant
                n == self.objects.len(),
                i <= n,
                items@ == active_items(self.objects@.subrange(0, i as int)),
            decreases n - i,
        {
            let object = self.objects[i];
            proof {
                assert(self.objects@.subrange(0, i + 1).drop_last() =~= self.objects@.subrange(0, i as int));
            }
            if object.is_active() {
                items.push(object);
            }
            i = i + 1;
        }
        proof {
            assert(self.objects@.subrange(0, n as int) =~= self.objects@);
        }
        items
    }

    /// The active object at `position` in slot order (counting active
    /// objects only), for modification in place.
    pub fn iter_active_mut(&mut self, position: usize) -> (slot: Option<&mut T>)
        ensures
            (slot is Some) == (position < active_items(old(self)@).len()),
            slot is None ==> final(self)@ == old(self)@,
            match slot {
                Some(r) => exists|i: int| {
                    &&& is_nth_live(old(self)@, position as int, i)
                    &&& *r == old(self)@[i]
                    &&& *r == active_items(old(self)@)[position as int]
                    &&& final(self)@ == old(self)@.update(i, *final(r))
                },
                None => true,
            },
    {
        let n = self.objects.len();
        let mut seen: usize = 0;
        let mut i: usize = 0;
        while i < n
            invariant
                n == self.objects.len(),
                self.objects@ == old(self)@,
                i <= n,
                seen <= i,
                seen == active_items(self.objects@.subrange(0, i as int)).len(),
                seen <= position,
            decreases n - i,
        {
            proof {
                assert(self.objects@.subrange(0, i + 1).drop_last() =~= self.objects@.subrange(0, i as int));
            }
            if self.objects[i].is_active() {
                if seen == position {
                    proof {
                        lemma_active_items_prefix(self.objects@, i + 1);
                    }
                    return Some(&mut self.objects[i]);
                }
                seen = seen + 1;
            }
            i = i + 1;
        }
        proof {
            assert(self.objects@.subrange(0, n as int) =~= self.objects@);
        }
        None
    }

    /// Frees the first active object, in slot order, for which `matches`
    /// answers `true`, and reports whether there was one. The predicate is
    /// asked about active objects only, in slot order, until it answers `true`.
    pub fn deactivate_first_where(&mut self, matches: impl Fn(&T) -> bool) -> (found: bool)
        requires
            forall|i: int| 0 <= i < old(self)@.len() && old(self)@[i].live() ==> matches.requires((&old(self)@[i],)),
        ensures
            found ==> exists|i: int| {
                &&& 0 <= i < old(self)@.len()
                &&& old(self)@[i].live()
                &&& matches.ensures((&old(self)@[i],), true)
                &&& final(self)@ == old(self)@.update(i, old(self)@[i].with_active(false))
                &&& forall|j: int| 0 <= j < i && old(self)@[j].live() ==> matches.ensures((&old(self)@[j],), false)
            },
            !found ==> final(self)@ == old(self)@,
            !found ==> forall|j: int| 0 <= j < old(self)@.len() && old(self)@[j].live() ==> matches.ensures((&old(self)@[j],), false),
            found ==> active_items(final(self)@).len() + 1 == active_items(old(self)@).len(),
    {
        let n = self.objects.len();
        let mut i: usize = 0;
        while i < n
            invariant
                n == self.objects.len(),
                self.objects@ == old(self)@,
                i <= n,
                forall|j: int| 0 <= j < n && old(self)@[j].live() ==> matches.requires((&old(self)@[j],)),
                forall|j: int| 0 <= j < i && old(self)@[j].live() ==> matches.ensures((&old(self)@[j],), false),
            decreases n - i,
        {
            let mut object = self.objects[i];
            if object.is_active() {
                let hit = matches(&object);
                if hit {
                    proof {
                        object.lemma_with_active(false);
                        lemma_active_count_update(self.objects@, i as int, object.with_active(false));
                    }
                    object.set_active(false);
                    self.objects.set(i, object);
                    return true;
                }
            }
            i = i + 1;
        }
        false
    }

    /// Frees every slot.
    pub fn deactivate_all(&mut self)
        ensures
            final(self)@.len() == old(self)@.len(),
            forall|i: int| 0 <= i < old(self)@.len() ==> #[trigger] final(self)@[i] == old(self)@[i].with_active(false),
            active_items(final(self)@) == Seq::<T>::empty(),
    {
        let n = self.objects.len();
        let mut i: usize = 0;
        while i < n
            invariant
                n == self.objects.len(),
                n == old(self)@.len(),
                i <= n,
                forall|j: int| 0 <= j < i ==> #[trigger] self.objects@[j] == old(self)@[j].with_active(false),
                forall|j: int| i <= j < n ==> #[trigger] self.objects@[j] == old(self)@[j],
            decreases n - i,
        {
            let mut object = self.objects[i];
            object.set_active(false);
            self.objects.set(i, object);
            i = i + 1;
        }
        proof {
            assert forall|j: int| 0 <= j < n implies !(#[trigger] self.objects@[j].live()) by {
                old(self)@[j].lemma_with_active(false);
            }
            lemma_no_live_no_items(self.objects@);
        }
    }

    /// Frees each active object for which `should_deactivate` answers `true`.
    /// The predicate is asked about active objects only.
    pub fn deactivate_where(&mut self, should_deactivate: impl Fn(&T) -> bool)
        requires
            forall|i: int| 0 <= i < old(self)@.len() && old(self)@[i].live() ==> should_deactivate.requires((&old(self)@[i],)),
        ensures
            final(self)@.len() == old(self)@.len(),
            forall|i: int| 0 <= i < old(self)@.len() ==> {
                let o = #[trigger] old(self)@[i];
                ||| !o.live() && final(self)@[i] == o
                ||| o.live() && should_deactivate.ensures((&o,), false) && final(self)@[i] == o
                ||| o.live() && should_deactivate.ensures((&o,), true) && final(self)@[i] == o.with_active(false)
            },
            active_items(final(self)@).len() <= active_items(old(self)@).len(),
    {
        let n = self.objects.len();
        let mut i: usize = 0;
        while i < n
            invariant
                n == self.objects.len(),
                n == old(self)@.len(),
                i <= n,
                forall|j: int| 0 <= j < n && old(self)@[j].live() ==> should_deactivate.requires((&old(self)@[j],)),
                forall|j: int| 0 <= j < i ==> {
                    let o = #[trigger] old(self)@[j];
                    ||| !o.live() && self.objects@[j] == o
                    ||| o.live() && should_deactivate.ensures((&o,), false) && self.objects@[j] == o
                    ||| o.live() && should_deactivate.ensures((&o,), true) && self.objects@[j] == o.with_active(false)
                },
                forall|j: int| i <= j < n ==> #[trigger] self.objects@[j] == old(self)@[j],
            decreases n - i,
        {
            let mut object = self.objects[i];
            if object.is_active() && should_deactivate(&object) {
                object.set_active(false);
                self.objects.set(i, object);
            }
            i = i + 1;
        }
        proof {
            assert forall|j: int| 0 <= j < n && #[trigger] self.objects@[j].live() implies old(self)@[j].live() by {
                old(self)@[j].lemma_with_active(false);
            }
            lemma_active_count_shrinks(old(self)@, self.objects@);
        }
    }
}

} // verus!
