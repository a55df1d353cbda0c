//! The component data model: one plain record type per component kind,
//! and `Components<T>`, the table that maps an entity id to its record
//! of one kind.

use vstd::prelude::*;
use crate::gamestate::ButtonAction;
use crate::geometry::{Color, Point};
use crate::paddle::Direction;

verus! {

/// One table of the entity-component store: a finite map from entity id
/// to one component record. Insertion overwrites, lookups that miss
/// report "not found", and iteration order carries no guarantee.
///
/// The table is viewed as a `Map<usize, T>`; every operation is
/// specified against that map.
pub struct Components<T> {
    entries: Vec<(usize, T)>,
}

spec fn distinct_keys<T>(s: Seq<(usize, T)>) -> bool {
    forall|i: int, j: int| 0 <= i < j < s.len() ==> (#[trigger] s[i]).0 != (#[trigger] s[j]).0
}

spec fn map_of<T>(s: Seq<(usize, T)>) -> Map<usize, T>
    decreases s.len(),
{
    if s.len() == 0 {
        Map::empty()
    } else {
        map_of(s.drop_last()).insert(s.last().0, s.last().1)
    }
}

proof fn lemma_map_of_contains<T>(s: Seq<(usize, T)>, k: usize)
    ensures
        map_of(s).contains_key(k) <==> exists|i: int| 0 <= i < s.len() && (#[trigger] s[i]).0 == k,
    decreases s.len(),
{
    if s.len() == 0 {
    } else {
        lemma_map_of_contains(s.drop_last(), k);
        if s.last().0 == k {
            assert(s[s.len() - 1].0 == k);
        } else if map_of(s).contains_key(k) {
            let i = choose|i: int| 0 <= i < s.drop_last().len() && (#[trigger] s.drop_last()[i]).0
                == k;
            assert(s[i].0 == k);
        } else if exists|i: int| 0 <= i < s.len() && (#[trigger] s[i]).0 == k {
            let i = choose|i: int| 0 <= i < s.len() && (#[trigger] s[i]).0 == k;
            assert(i < s.len() - 1);
            assert(s.drop_last()[i].0 == k);
        }
    }
}

proof fn lemma_map_of_get<T>(s: Seq<(usize, T)>, i: int)
    requires
        distinct_keys(s),
        0 <= i < s.len(),
    ensures
        map_of(s).contains_key(s[i].0),
        map_of(s)[s[i].0] == s[i].1,
    decreases s.len(),
{
    if i == s.len() - 1 {
    } else {
        assert(s.drop_last()[i] == s[i]);
        assert(distinct_keys(s.drop_last())) by {
            assert(forall|a: int, b: int|
                0 <= a < b < s.drop_last().len() ==> (#[trigger] s.drop_last()[a]).0 != (
                #[trigger] s.drop_last()[b]).0) by {
                assert(forall|a: int|
                    0 <= a < s.drop_last().len() ==> #[trigger] s.drop_last()[a] == s[a]);
            }
        }
        lemma_map_of_get(s.drop_last(), i);
        assert(s[i].0 != s.last().0);
    }
}

proof fn lemma_distinct_drop_last<T>(s: Seq<(usize, T)>)
    requires
        distinct_keys(s),
        s.len() > 0,
    ensures
        distinct_keys(s.drop_last()),
{
    assert(forall|a: int| 0 <= a < s.drop_last().len() ==> #[trigger] s.drop_last()[a] == s[a]);
}

proof fn lemma_map_of_remove_idx<T>(s: Seq<(usize, T)>, i: int)
    requires
        distinct_keys(s),
        0 <= i < s.len(),
    ensures
        map_of(s.remove(i)) == map_of(s).remove(s[i].0),
        distinct_keys(s.remove(i)),
    decreases s.len(),
{
    assert(forall|a: int|
        0 <= a < s.remove(i).len() ==> #[trigger] s.remove(i)[a] == (if a < i {
            s[a]
        } else {
            s[a + 1]
        }));
    assert(distinct_keys(s.remove(i)));
    if i == s.len() - 1 {
        assert(s.remove(i) =~= s.drop_last());
        lemma_map_of_contains(s.drop_last(), s[i].0);
        assert(forall|a: int|
            0 <= a < s.drop_last().len() ==> (#[trigger] s.drop_last()[a]).0 != s[i].0);
        assert(!map_of(s.drop_last()).contains_key(s[i].0));
        assert(map_of(s.drop_last()).insert(s.last().0, s.last().1).remove(s[i].0) =~= map_of(
            s.drop_last(),
        ));
    } else {
        let dl = s.drop_last();
        let p = s.last();
        lemma_distinct_drop_last(s);
        lemma_map_of_remove_idx(dl, i);
        assert(s.remove(i).drop_last() =~= dl.remove(i));
        assert(s.remove(i).last() == p);
        assert(s.remove(i).len() > 0);
        assert(map_of(s.remove(i)) == map_of(dl.remove(i)).insert(p.0, p.1));
        assert(dl[i] == s[i]);
        assert(p.0 != s[i].0);
        assert(map_of(dl).remove(s[i].0).insert(p.0, p.1) =~= map_of(dl).insert(p.0, p.1).remove(
            s[i].0,
        ));
    }
}

impl<T> View for Components<T> {
    type V = Map<usize, T>;

    closed spec fn view(&self) -> Map<usize, T> {
        map_of(self.entries@)
    }
}

impl<T> Components<T> {
    #[verifier::type_invariant]
    spec fn wf(self) -> bool {
        distinct_keys(self.entries@)
    }

    /// An empty table.
    pub fn new() -> (c: Self)
        ensures
            c@ == Map::<usize, T>::empty(),
    {
        Components { entries: Vec::new() }
    }

    /// The record stored for `id`, if any.
    pub fn get(&self, id: &usize) -> (r: Option<&T>)
        ensures
            match r {
                Some(v) => self@.contains_key(*id) && *v == self@[*id],
                None => !self@.contains_key(*id),
            },
    {
        proof {
            use_type_invariant(self);
        }
        let n = self.entries.len();
        let mut i: usize = 0;
        while i < n
            invariant
                n == self.entries@.len(),
                i <= n,
                distinct_keys(self.entries@),
                forall|k: int| 0 <= k < i ==> (#[trigger] self.entries@[k]).0 != *id,
            decreases n - i,
        {
            if self.entries[i].0 == *id {
                proof {
                    lemma_map_of_get(self.entries@, i as int);
                }
                return Some(&self.entries[i].1);
            }
            i += 1;
        }
        proof {
            lemma_map_of_contains(self.entries@, *id);
        }
        None
    }

    /// Removes the record for `id`; tolerates an absent id as a no-op.
    pub fn remove(&mut self, id: &usize) -> (r: Option<T>)
        ensures
            final(self)@ == old(self)@.remove(*id),
            match r {
                Some(v) => old(self)@.contains_key(*id) && v == old(self)@[*id],
                None => !old(self)@.contains_key(*id),
            },
    {
        proof {
            use_type_invariant(&*self);
        }
        let mut v: Vec<(usize, T)> = Vec::new();
        core::mem::swap(&mut v, &mut self.entries);
        let ghost s0 = v@;
        let n = v.len();
        let mut i: usize = 0;
        while i < n
            invariant
                n == v@.len(),
                i <= n,
                v@ == s0,
                old(self)@ == map_of(s0),
                distinct_keys(s0),
                forall|k: int| 0 <= k < i ==> (#[trigger] s0[k]).0 != *id,
            decreases n - i,
        {
            if v[i].0 == *id {
                proof {
                    lemma_map_of_get(s0, i as int);
                    lemma_map_of_remove_idx(s0, i as int);
                }
                let e = v.remove(i);
                core::mem::swap(&mut v, &mut self.entries);
                return Some(e.1);
            }
            i += 1;
        }
        core::mem::swap(&mut v, &mut self.entries);
        proof {
            lemma_map_of_contains(s0, *id);
            assert(self@ =~= old(self)@.remove(*id));
        }
        None
    }

    /// Stores `value` for `id`, overwriting any record already there.
    pub fn insert(&mut self, id: usize, value: T)
        ensures
            final(self)@ == old(self)@.insert(id, value),
    {
        self.remove(&id);
        proof {
            use_type_invariant(&*self);
            lemma_map_of_contains(self.entries@, id);
            assert(forall|k: int| 0 <= k < self.entries@.len() ==> (#[trigger] self.entries@[k]).0
                != id);
        }
        let mut v: Vec<(usize, T)> = Vec::new();
        core::mem::swap(&mut v, &mut self.entries);
        let ghost s1 = v@;
        v.push((id, value));
        core::mem::swap(&mut v, &mut self.entries);
        proof {
            assert(self.entries@.drop_last() =~= s1);
            assert(self.entries@.last() == (id, value));
            assert(self@ == map_of(s1).insert(id, value));
            assert(old(self)@.remove(id).insert(id, value) =~= old(self)@.insert(id, value));
        }
    }

    /// Every id the table holds a record for, each exactly once, in an
    /// order that callers must not rely on.
    pub fn keys(&self) -> (r: Vec<usize>)
        ensures
            r@.no_duplicates(),
            r@.to_set() == self@.dom(),
            r@.len() == self@.dom().len(),
    {
        proof {
            use_type_invariant(self);
        }
        let n = self.entries.len();
        let mut r: Vec<usize> = Vec::new();
        let mut i: usize = 0;
        while i < n
            invariant
                n == self.entries@.len(),
                i <= n,
                distinct_keys(self.entries@),
                r@.len() == i,
                forall|k: int| 0 <= k < i ==> r@[k] == (#[trigger] self.entries@[k]).0,
            decreases n - i,
        {
            r.push(self.entries[i].0);
            i += 1;
        }
        proof {
            assert(r@.no_duplicates()) by {
                assert(forall|a: int, b: int|
                    0 <= a < b < r@.len() ==> r@[a] == self.entries@[a].0 && r@[b]
                        == self.entries@[b].0);
            }
            assert(r@.to_set() =~= self@.dom()) by {
                assert forall|k: usize| r@.to_set().contains(k) implies self@.dom().contains(
                    k,
                ) by {
                    let a = choose|a: int| 0 <= a < r@.len() && r@[a] == k;
                    lemma_map_of_get(self.entries@, a);
                }
                assert forall|k: usize| self@.dom().contains(k) implies r@.to_set().contains(
                    k,
                ) by {
                    lemma_map_of_contains(self.entries@, k);
                    let a = choose|a: int|
                        0 <= a < self.entries@.len() && (#[trigger] self.entries@[a]).0 == k;
                    assert(r@[a] == k);
                }
            }
            r@.unique_seq_to_set();
        }
        r
    }
}

impl<T> Default for Components<T> {
    fn default() -> (c: Self)
        ensures
            c@ == Map::<usize, T>::empty(),
    {
        Components::new()
    }
}

/// A component record names its entity; the pair is used by name-based
/// entity lookups.
pub trait Component {
    spec fn spec_id(&self) -> usize;

    spec fn spec_name(&self) -> Seq<char>;

    fn get_info(&self) -> (r: (usize, &str))
        ensures
            r.0 == self.spec_id(),
            r.1@ == self.spec_name(),
    ;
}

/// An axis-aligned collision box, always centered on the entity's
/// position; its size is fixed at creation.
pub struct CCollision2D {
    pub id: usize,
    pub name: String,
    pub size: (u32, u32),
}

/// Velocity as a unit-ish direction times a scalar speed in pixels per
/// second; each direction component is -1, 0 or 1.
pub struct CMovement2D {
    pub id: usize,
    pub name: String,
    pub speed: u32,
    pub x: i32,
    pub y: i32,
}

impl CMovement2D {
    /// Both direction components stay in {-1, 0, 1}.
    pub open spec fn dir_valid(self) -> bool {
        -1 <= self.x <= 1 && -1 <= self.y <= 1
    }
}

/// A paddle's movement intent and its AI bookkeeping: the timestamp of
/// the last automated decision (milliseconds on the caller's clock) and
/// the minimum delay between decisions. Human paddles ignore the AI
/// fields.
pub struct CPaddleInfo {
    pub id: usize,
    pub name: String,
    pub direction: Direction,
    pub ai_delay_timer: u64,
    pub ai_delay: u64,
    pub is_ai: bool,
}

impl CPaddleInfo {
    pub open spec fn spec_delay_done(self, now_ms: u64) -> bool {
        now_ms - self.ai_delay_timer > self.ai_delay
    }

    /// Whether more than `ai_delay` milliseconds have passed since the
    /// last AI decision, `now_ms` being the current reading of the same
    /// clock the timer was set from.
    pub fn is_delay_done(&self, now_ms: u64) -> (r: bool)
        requires
            now_ms >= self.ai_delay_timer,
        ensures
            r == self.spec_delay_done(now_ms),
    {
        now_ms - self.ai_delay_timer > self.ai_delay
    }
}

/// The entity's center point, the authoritative location used by both
/// rendering and collision.
pub struct CPosition2D {
    pub id: usize,
    pub name: String,
    pub pos: Point,
}

/// A solid-color rectangle visual of the given size, drawn centered on
/// the entity's position.
pub struct CTexture {
    pub id: usize,
    pub name: String,
    pub size: (u32, u32),
    pub color: Color,
}

/// A text label attached to an entity.
pub struct CText {
    pub id: usize,
    pub name: String,
    pub text: String,
    pub size: u32,
    pub offset: Point,
    pub color: Color,
}

/// A clickable button: its label and the action a qualifying click
/// requests. A button with no action is tolerated; clicking it is a
/// no-op.
pub struct CButtonInfo {
    pub id: usize,
    pub name: String,
    pub text: String,
    pub callback: Option<ButtonAction>,
}

impl Component for CCollision2D {
    open spec fn spec_id(&self) -> usize {
        self.id
    }

    open spec fn spec_name(&self) -> Seq<char> {
        self.name@
    }

    fn get_info(&self) -> (r: (usize, &str)) {
        (self.id, self.name.as_str())
    }
}

impl Component for CPosition2D {
    open spec fn spec_id(&self) -> usize {
        self.id
    }

    open spec fn spec_name(&self) -> Seq<char> {
        self.name@
    }

    fn get_info(&self) -> (r: (usize, &str)) {
        (self.id, self.name.as_str())
    }
}

} // verus!
