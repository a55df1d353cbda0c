//! Entity lifecycle: the id allocator that issues and recycles entity
//! ids, and the component manager that owns one table per component
//! kind together with whole-entity teardown.

use vstd::prelude::*;
use crate::components::{
    CButtonInfo, CCollision2D, CMovement2D, CPaddleInfo, CPosition2D, CText, CTexture, Components,
};

verus! {

/// The mathematical state of an id allocator: the fresh counter, the
/// pool of freed ids (a stack, most recently freed on top) and the ids
/// currently allocated, in allocation order.
pub ghost struct AllocModel {
    pub next: int,
    pub free: Seq<usize>,
    pub allocated: Seq<usize>,
}

/// The predicate that keeps every id but `id`; freeing filters the
/// allocated list with it.
pub open spec fn keep_not(id: usize) -> spec_fn(usize) -> bool {
    |x: usize| x != id
}

impl AllocModel {
    /// A consistent allocator: no id is allocated or pooled twice, no
    /// id is both, and every issued id lies below the fresh counter.
    pub open spec fn inv(self) -> bool {
        &&& 0 <= self.next <= usize::MAX
        &&& self.allocated.no_duplicates()
        &&& self.free.no_duplicates()
        &&& forall|i: int| 0 <= i < self.free.len() ==> (#[trigger] self.free[i]) < self.next
        &&& forall|i: int|
            0 <= i < self.allocated.len() ==> (#[trigger] self.allocated[i]) < self.next
        &&& forall|i: int|
            0 <= i < self.free.len() ==> !self.allocated.contains(#[trigger] self.free[i])
    }

    /// The id the next allocation hands out: the most recently freed
    /// id if the pool is non-empty, else the fresh counter.
    pub open spec fn alloc_choice(self) -> usize {
        if self.free.len() > 0 {
            self.free.last()
        } else {
            self.next as usize
        }
    }

    /// The state after one allocation.
    pub open spec fn after_alloc(self) -> AllocModel {
        if self.free.len() > 0 {
            AllocModel {
                free: self.free.drop_last(),
                allocated: self.allocated.push(self.free.last()),
                ..self
            }
        } else {
            AllocModel {
                next: self.next + 1,
                allocated: self.allocated.push(self.next as usize),
                ..self
            }
        }
    }

    /// The state after freeing `id`: a no-op if `id` is already
    /// pooled, else `id` is pushed onto the pool and withdrawn from
    /// the allocated list.
    pub open spec fn after_free(self, id: usize) -> AllocModel {
        if self.free.contains(id) {
            self
        } else {
            AllocModel {
                free: self.free.push(id),
                allocated: self.allocated.filter(keep_not(id)),
                ..self
            }
        }
    }
}

proof fn lemma_filter_facts(s: Seq<usize>, pred: spec_fn(usize) -> bool)
    ensures
        forall|x: usize| #[trigger] s.filter(pred).contains(x) <==> s.contains(x) && pred(x),
        s.no_duplicates() ==> s.filter(pred).no_duplicates(),
    decreases s.len(),
{
    reveal(Seq::filter);
    if s.len() == 0 {
        assert forall|x: usize| #[trigger] s.filter(pred).contains(x) implies s.contains(x)
            && pred(x) by {}
        assert forall|x: usize| s.contains(x) && pred(x) implies #[trigger] s.filter(
            pred,
        ).contains(x) by {}
    } else {
        let dl = s.drop_last();
        assert(dl.no_duplicates() || !s.no_duplicates()) by {
            if s.no_duplicates() {
                assert(forall|a: int| 0 <= a < dl.len() ==> #[trigger] dl[a] == s[a]);
            }
        }
        lemma_filter_facts(dl, pred);
        let f = s.filter(pred);
        assert forall|x: usize| #[trigger] f.contains(x) implies s.contains(x) && pred(x) by {
            if pred(s.last()) {
                assert(f == dl.filter(pred).push(s.last()));
                let j = choose|j: int| 0 <= j < f.len() && f[j] == x;
                if j == f.len() - 1 {
                    assert(s[s.len() - 1] == x);
                } else {
                    assert(dl.filter(pred).contains(x));
                    let k = choose|k: int| 0 <= k < dl.len() && dl[k] == x;
                    assert(s[k] == x);
                }
            } else {
                assert(f == dl.filter(pred));
                assert(dl.contains(x));
                let k = choose|k: int| 0 <= k < dl.len() && dl[k] == x;
                assert(s[k] == x);
            }
        }
        assert forall|x: usize| s.contains(x) && pred(x) implies #[trigger] f.contains(x) by {
            let j = choose|j: int| 0 <= j < s.len() && s[j] == x;
            if j == s.len() - 1 {
                assert(f == dl.filter(pred).push(s.last()));
                assert(f.last() == x);
            } else {
                assert(dl[j] == x);
                assert(dl.contains(x));
                assert(dl.filter(pred).contains(x));
                if pred(s.last()) {
                    let k = choose|k: int|
                        0 <= k < dl.filter(pred).len() && dl.filter(pred)[k] == x;
                    assert(f[k] == x);
                }
            }
        }
        if s.no_duplicates() {
            if pred(s.last()) {
                assert(f == dl.filter(pred).push(s.last()));
                assert(!dl.contains(s.last())) by {
                    if dl.contains(s.last()) {
                        let k = choose|k: int| 0 <= k < dl.len() && dl[k] == s.last();
                        assert(s[k] == s[s.len() - 1]);
                    }
                }
                assert(!dl.filter(pred).contains(s.last()));
                assert(f.no_duplicates()) by {
                    let g = dl.filter(pred);
                    assert(forall|a: int| 0 <= a < g.len() ==> f[a] == #[trigger] g[a]);
                    assert(forall|a: int, b: int|
                        0 <= a < b < f.len() && b < f.len() - 1 ==> #[trigger] f[a] != #[trigger] f[b]);
                    assert forall|a: int| 0 <= a < f.len() - 1 implies #[trigger] f[a] != f[f.len()
                        - 1] by {
                        assert(g.contains(g[a]));
                    }
                }
            }
        }
    }
}

/// Issues unique, reusable non-negative entity ids. Freed ids go onto
/// a stack and are reused most-recent-first before the fresh counter
/// advances.
pub struct IDAllocator {
    next_id: usize,
    free_ids: Vec<usize>,
    allocated_ids: Vec<usize>,
}

impl IDAllocator {
    pub closed spec fn model(self) -> AllocModel {
        AllocModel { next: self.next_id as int, free: self.free_ids@, allocated: self.allocated_ids@ }
    }

    pub open spec fn inv(self) -> bool {
        self.model().inv()
    }

    pub fn new() -> (a: IDAllocator)
        ensures
            a.model() == (AllocModel {
                next: 0,
                free: Seq::<usize>::empty(),
                allocated: Seq::<usize>::empty(),
            }),
            a.inv(),
    {
        IDAllocator { next_id: 0, free_ids: Vec::new(), allocated_ids: Vec::new() }
    }

    /// Allocates one id: the most recently freed id if any is pooled,
    /// else the next fresh counter value. The returned id is recorded
    /// as allocated and is not allocated twice.
    pub fn get_number(&mut self) -> (id: usize)
        requires
            old(self).inv(),
            old(self).model().next < usize::MAX,
        ensures
            id == old(self).model().alloc_choice(),
            final(self).model() == old(self).model().after_alloc(),
            final(self).inv(),
            !old(self).model().allocated.contains(id),
            final(self).model().allocated == old(self).model().allocated.push(id),
    {
        proof {
            if self.free_ids@.len() > 0 {
                assert(self.free_ids@[self.free_ids@.len() - 1] == self.free_ids@.last());
                assert(self.model().free.contains(self.model().free.last()));
            }
        }
        if let Some(id) = self.free_ids.pop() {
            self.allocated_ids.push(id);
            proof {
                lemma_push_keeps_no_dup(old(self).model().allocated, id);
                let m = self.model();
                assert forall|i: int| 0 <= i < m.free.len() implies !m.allocated.contains(
                    #[trigger] m.free[i],
                ) by {
                    assert(old(self).model().free[i] == m.free[i]);
                    assert(!old(self).model().allocated.contains(m.free[i]));
                    assert(m.free[i] != id) by {
                        assert(old(self).model().free.no_duplicates());
                        assert(old(self).model().free[old(self).model().free.len() - 1] == id);
                    }
                    lemma_push_contains(old(self).model().allocated, id, m.free[i]);
                }
            }
            id
        } else {
            let id = self.next_id;
            self.next_id = self.next_id + 1;
            self.allocated_ids.push(id);
            proof {
                assert(!old(self).model().allocated.contains(id));
                lemma_push_keeps_no_dup(old(self).model().allocated, id);
                let m = self.model();
                assert(m.free.len() == 0);
            }
            id
        }
    }

    /// A snapshot (copy) of the currently allocated ids, in the order
    /// they became allocated and were not yet freed.
    pub fn get_allocated_ids(&self) -> (r: Vec<usize>)
        ensures
            r@ == self.model().allocated,
    {
        let n = self.allocated_ids.len();
        let mut r: Vec<usize> = Vec::new();
        let mut i: usize = 0;
        while i < n
            invariant
                n == self.allocated_ids@.len(),
                i <= n,
                r@ == self.allocated_ids@.take(i as int),
            decreases n - i,
        {
            r.push(self.allocated_ids[i]);
            proof {
                assert(r@ =~= self.allocated_ids@.take(i + 1 as int));
            }
            i += 1;
        }
        proof {
            assert(r@ =~= self.allocated_ids@);
        }
        r
    }

    /// Returns `id` to the pool unless it is already there; freeing
    /// twice is a safe no-op. A consistent allocator stays consistent
    /// whenever the freed id was one it could have issued.
    pub fn free_number(&mut self, id: usize)
        ensures
            final(self).model() == old(self).model().after_free(id),
            old(self).inv() && id < old(self).model().next ==> final(self).inv(),
            old(self).inv() && old(self).model().free.contains(id) ==> final(self).inv(),
    {
        if !contains_id(&self.free_ids, id) {
            self.free_ids.push(id);
            let ghost pred = keep_not(id);
            let n = self.allocated_ids.len();
            let mut kept: Vec<usize> = Vec::new();
            let ghost s0 = self.allocated_ids@;
            let mut i: usize = 0;
            while i < n
                invariant
                    n == s0.len(),
                    self.allocated_ids@ == s0,
                    i <= n,
                    kept@ == s0.take(i as int).filter(pred),
                    pred == keep_not(id),
                decreases n - i,
            {
                let v = self.allocated_ids[i];
                proof {
                    reveal(Seq::filter);
                    assert(s0.take(i + 1 as int).drop_last() =~= s0.take(i as int));
                    assert(s0.take(i + 1 as int).last() == s0[i as int]);
                }
                if v != id {
                    kept.push(v);
                }
                proof {
                    assert(pred(v) == (v != id));
                }
                i += 1;
            }
            proof {
                assert(s0.take(n as int) =~= s0);
            }
            self.allocated_ids = kept;
            proof {
                lemma_filter_facts(s0, pred);
                let m0 = old(self).model();
                let m1 = self.model();
                assert(m1.allocated == m0.allocated.filter(pred));
                assert(m1.free == m0.free.push(id));
                assert(m1 == m0.after_free(id));
                if m0.inv() && id < m0.next {
                    lemma_push_keeps_no_dup(m0.free, id);
                    assert forall|k: int| 0 <= k < m1.free.len() implies (#[trigger] m1.free[k])
                        < m1.next by {
                        if k < m1.free.len() - 1 {
                            assert(m1.free[k] == m0.free[k]);
                        } else {
                            assert(m1.free[k] == id);
                        }
                    }
                    assert forall|k: int| 0 <= k < m1.allocated.len() implies (
                    #[trigger] m1.allocated[k]) < m1.next by {
                        assert(m1.allocated.contains(m1.allocated[k]));
                        assert(s0.contains(m1.allocated[k]));
                        let j = choose|j: int| 0 <= j < s0.len() && s0[j] == m1.allocated[k];
                        assert(m0.allocated[j] < m0.next);
                    }
                    assert forall|k: int| 0 <= k < m1.free.len() implies !m1.allocated.contains(
                        #[trigger] m1.free[k],
                    ) by {
                        if k < m1.free.len() - 1 {
                            assert(m0.free[k] == m1.free[k]);
                            assert(!m0.allocated.contains(m1.free[k]));
                            if m1.allocated.contains(m1.free[k]) {
                                assert(s0.contains(m1.free[k]));
                            }
                        } else {
                            assert(m1.free[k] == id);
                            assert(!pred(id));
                            if m1.allocated.contains(id) {
                                assert(pred(id));
                            }
                        }
                    }
                    assert(m1.inv());
                }
            }
        } else {
            proof {
                assert(final(self).model() == old(self).model().after_free(id));
            }
        }
    }
}

impl Default for IDAllocator {
    fn default() -> (a: IDAllocator)
        ensures
            a.model() == (AllocModel {
                next: 0,
                free: Seq::<usize>::empty(),
                allocated: Seq::<usize>::empty(),
            }),
            a.inv(),
    {
        IDAllocator::new()
    }
}

/// Whether `v` holds `id`; the pool membership test of `free_number`.
fn contains_id(v: &Vec<usize>, id: usize) -> (r: bool)
    ensures
        r == v@.contains(id),
{
    let n = v.len();
    let mut i: usize = 0;
    while i < n
        invariant
            n == v@.len(),
            i <= n,
            forall|k: int| 0 <= k < i ==> v@[k] != id,
        decreases n - i,
    {
        if v[i] == id {
            return true;
        }
        i += 1;
    }
    proof {
        assert(!v@.contains(id));
    }
    false
}

proof fn lemma_push_keeps_no_dup(s: Seq<usize>, x: usize)
    requires
        s.no_duplicates(),
        !s.contains(x),
    ensures
        s.push(x).no_duplicates(),
{
    let t = s.push(x);
    assert forall|a: int, b: int| 0 <= a < b < t.len() implies t[a] != t[b] by {
        if b == t.len() - 1 {
            assert(t[a] == s[a]);
            assert(s.contains(s[a]));
        }
    }
}

proof fn lemma_push_contains(s: Seq<usize>, x: usize, y: usize)
    ensures
        s.push(x).contains(y) <==> s.contains(y) || x == y,
{
    let t = s.push(x);
    if s.contains(y) {
        let j = choose|j: int| 0 <= j < s.len() && s[j] == y;
        assert(t[j] == y);
    }
    if x == y {
        assert(t[t.len() - 1] == y);
    }
    if t.contains(y) {
        let j = choose|j: int| 0 <= j < t.len() && t[j] == y;
        if j < s.len() {
            assert(s[j] == y);
        }
    }
}

/// Freeing an id that was not already pooled and then allocating
/// returns that same id: the most recently freed id is reused before
/// any other pooled id and before a fresh counter value. Together
/// with `free_entity`'s contract this makes a torn-down entity's id
/// immediately available for reuse.
pub proof fn lemma_free_then_alloc_reuses(m: AllocModel, id: usize)
    requires
        !m.free.contains(id),
    ensures
        m.after_free(id).alloc_choice() == id,
{
    assert(m.after_free(id).free.last() == id);
}

/// A table filled at ids 0 and 1 on top of an empty one holds exactly
/// those two ids.
pub proof fn lemma_dom_two<T>(m0: Map<usize, T>, m1: Map<usize, T>, m2: Map<usize, T>)
    requires
        m0 == Map::<usize, T>::empty(),
        m1.remove(0) == m0.remove(0),
        m2.remove(1) == m1.remove(1),
        m2.contains_key(0),
        m2.contains_key(1),
    ensures
        m2.dom() == set![0usize, 1usize],
{
    assert forall|q: usize| #[trigger] m2.dom().contains(q) implies (q == 0 || q == 1) by {
        if q != 0 && q != 1 {
            assert(m2.remove(1).contains_key(q));
            assert(m1.remove(1).contains_key(q));
            assert(m1.contains_key(q));
            assert(m1.remove(0).contains_key(q));
            assert(m0.remove(0).contains_key(q));
            assert(false);
        }
    }
    assert(m2.dom() =~= set![0usize, 1usize]);
}

/// A table filled at ids 0, 1 and 2 on top of an empty one holds
/// exactly those three ids.
pub proof fn lemma_dom_three<T>(m0: Map<usize, T>, m1: Map<usize, T>, m2: Map<usize, T>, m3: Map<usize, T>)
    requires
        m0 == Map::<usize, T>::empty(),
        m1.remove(0) == m0.remove(0),
        m2.remove(1) == m1.remove(1),
        m3.remove(2) == m2.remove(2),
        m3.contains_key(0),
        m3.contains_key(1),
        m3.contains_key(2),
    ensures
        m3.dom() == set![0usize, 1usize, 2usize],
{
    assert forall|q: usize| #[trigger] m3.dom().contains(q) implies (q == 0 || q == 1 || q
        == 2) by {
        if q != 0 && q != 1 && q != 2 {
            assert(m3.remove(2).contains_key(q));
            assert(m2.remove(2).contains_key(q));
            assert(m2.contains_key(q));
            assert(m2.remove(1).contains_key(q));
            assert(m1.remove(1).contains_key(q));
            assert(m1.contains_key(q));
            assert(m1.remove(0).contains_key(q));
            assert(m0.remove(0).contains_key(q));
            assert(false);
        }
    }
    assert(m3.dom() =~= set![0usize, 1usize, 2usize]);
}

/// One table per component kind, keyed by entity id, plus the id
/// allocator: the whole per-screen entity-component store.
pub struct ComponentManager {
    pub id_allocator: IDAllocator,
    pub ccollision_2d: Components<CCollision2D>,
    pub cmovement_2d: Components<CMovement2D>,
    pub cpaddle_info: Components<CPaddleInfo>,
    pub cposition_2d: Components<CPosition2D>,
    pub ctexture: Components<CTexture>,
    pub cbutton_info: Components<CButtonInfo>,
    pub ctext: Components<CText>,
}

impl ComponentManager {
    /// An empty store: every table empty and the allocator pristine.
    pub open spec fn is_fresh(self) -> bool {
        &&& self.ccollision_2d@ == Map::<usize, CCollision2D>::empty()
        &&& self.cmovement_2d@ == Map::<usize, CMovement2D>::empty()
        &&& self.cpaddle_info@ == Map::<usize, CPaddleInfo>::empty()
        &&& self.cposition_2d@ == Map::<usize, CPosition2D>::empty()
        &&& self.ctexture@ == Map::<usize, CTexture>::empty()
        &&& self.cbutton_info@ == Map::<usize, CButtonInfo>::empty()
        &&& self.ctext@ == Map::<usize, CText>::empty()
        &&& self.id_allocator.model() == (AllocModel {
            next: 0,
            free: Seq::<usize>::empty(),
            allocated: Seq::<usize>::empty(),
        })
        &&& self.id_allocator.inv()
    }

    pub fn new() -> (cm: ComponentManager)
        ensures
            cm.is_fresh(),
    {
        ComponentManager {
            id_allocator: IDAllocator::new(),
            ccollision_2d: Components::new(),
            cmovement_2d: Components::new(),
            cpaddle_info: Components::new(),
            cposition_2d: Components::new(),
            ctexture: Components::new(),
            cbutton_info: Components::new(),
            ctext: Components::new(),
        }
    }

    /// Tears one entity down: removes `id` from every one of the seven
    /// component tables (tolerating absence in each) and returns it to
    /// the allocator's pool, making it immediately available for
    /// reuse.
    pub fn free_entity(&mut self, id: usize)
        ensures
            final(self).ccollision_2d@ == old(self).ccollision_2d@.remove(id),
            final(self).cmovement_2d@ == old(self).cmovement_2d@.remove(id),
            final(self).cpaddle_info@ == old(self).cpaddle_info@.remove(id),
            final(self).cposition_2d@ == old(self).cposition_2d@.remove(id),
            final(self).ctexture@ == old(self).ctexture@.remove(id),
            final(self).cbutton_info@ == old(self).cbutton_info@.remove(id),
            final(self).ctext@ == old(self).ctext@.remove(id),
            final(self).id_allocator.model() == old(self).id_allocator.model().after_free(id),
            old(self).id_allocator.inv() && id < old(self).id_allocator.model().next
                ==> final(self).id_allocator.inv(),
            old(self).id_allocator.inv() && old(self).id_allocator.model().free.contains(id)
                ==> final(self).id_allocator.inv(),
    {
        self.ccollision_2d.remove(&id);
        self.cmovement_2d.remove(&id);
        self.cpaddle_info.remove(&id);
        self.cposition_2d.remove(&id);
        self.ctexture.remove(&id);
        self.cbutton_info.remove(&id);
        self.ctext.remove(&id);

        self.id_allocator.free_number(id);
    }
}

impl Default for ComponentManager {
    fn default() -> (cm: ComponentManager)
        ensures
            cm.is_fresh(),
    {
        ComponentManager::new()
    }
}

} // verus!
