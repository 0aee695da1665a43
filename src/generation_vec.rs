use core::marker::PhantomData;
use vstd::prelude::*;

verus! {

/// Resource handle returned whenever a graphics resource is created. Besides the slot index it
/// carries the generation of that slot, so a handle to a released resource never reaches the
/// resource that later takes its slot.
#[derive(Debug)]
pub struct Handle<T> {
    pub index: usize,
    pub generation: usize,
    pub phantom: PhantomData<T>,
}

impl<T> Handle<T> {
    /// A handle that refers to no slot; a draw loop starts with it as "nothing bound yet".
    pub fn new() -> (r: Self)
        ensures
            r.index == usize::MAX,
            r.generation == usize::MAX,
    {
        Handle { index: usize::MAX, generation: usize::MAX, phantom: PhantomData }
    }
}

impl<T> Clone for Handle<T> {
    fn clone(&self) -> (r: Self)
        ensures
            r == *self,
    {
        *self
    }
}

impl<T> PartialEq for Handle<T> {
    fn eq(&self, other: &Self) -> (r: bool)
        ensures
            r == (self.index == other.index && self.generation == other.generation),
    {
        self.index == other.index && self.generation == other.generation
    }
}

impl<T> vstd::std_specs::cmp::PartialEqSpecImpl for Handle<T> {
    open spec fn obeys_eq_spec() -> bool {
        true
    }

    open spec fn eq_spec(&self, other: &Self) -> bool {
        self.index == other.index && self.generation == other.generation
    }
}

impl<T> Eq for Handle<T> {}

impl<T> Copy for Handle<T> {}

/// The mathematical picture of a [`GenerationVec`]: one `(generation, value)` pair per slot and
/// the stack of reusable slot indices, whose last element is reused first.
pub struct ArenaModel<V> {
    pub slots: Seq<(usize, Option<V>)>,
    pub free: Seq<usize>,
}

impl<V> ArenaModel<V> {
    /// The free list holds each vacant slot whose generation can still be bumped, and nothing
    /// else; its entries are distinct.
    pub open spec fn wf(self) -> bool {
        &&& self.free.no_duplicates()
        &&& forall|i: int|
            0 <= i < self.free.len() ==> (self.free[i] as int) < self.slots.len()
                && self.slots[self.free[i] as int].1 is None
        &&& forall|j: usize|
            (j as int) < self.slots.len() && self.slots[j as int].1 is None && self.slots[j as int].0
                < usize::MAX ==> self.free.contains(j)
    }

    /// What a handle reaches: the slot's value when both its index and its generation match.
    pub open spec fn lookup(self, index: usize, generation: usize) -> Option<V> {
        if (index as int) < self.slots.len() && self.slots[index as int].0 == generation {
            self.slots[index as int].1
        } else {
            None
        }
    }

    /// Whether the top of the free list can be reused (its generation is not exhausted).
    pub open spec fn reuses_free(self) -> bool {
        &&& self.free.len() > 0
        &&& (self.free.last() as int) < self.slots.len()
        &&& self.slots[self.free.last() as int].0 < usize::MAX
    }

    /// Slot index and generation of the handle that `push` hands out.
    pub open spec fn next_handle(self) -> (usize, usize) {
        if self.reuses_free() {
            (self.free.last(), (self.slots[self.free.last() as int].0 + 1) as usize)
        } else {
            (self.slots.len() as usize, 0usize)
        }
    }

    /// The arena after `push(value)`: the top of the free list is reused with its generation
    /// bumped by one, or, with no reusable index, a new slot is appended at generation 0. An
    /// index whose generation is exhausted leaves the free list for good.
    pub open spec fn push_spec(self, value: V) -> ArenaModel<V> {
        if self.reuses_free() {
            ArenaModel {
                slots: self.slots.update(
                    self.free.last() as int,
                    (self.next_handle().1, Some(value)),
                ),
                free: self.free.drop_last(),
            }
        } else {
            ArenaModel {
                slots: self.slots.push((0usize, Some(value))),
                free: if self.free.len() > 0 {
                    self.free.drop_last()
                } else {
                    self.free
                },
            }
        }
    }

    /// The arena after `remove` of a handle: a live slot loses its value, keeps its generation,
    /// and its index goes on top of the free list. Any other handle changes nothing.
    pub open spec fn remove_spec(self, index: usize, generation: usize) -> ArenaModel<V> {
        if self.lookup(index, generation) is Some {
            ArenaModel {
                slots: self.slots.update(index as int, (generation, None)),
                free: self.free.push(index),
            }
        } else {
            self
        }
    }

    /// The arena after the value a live handle reaches is replaced in place.
    pub open spec fn update_spec(self, index: usize, generation: usize, value: V) -> ArenaModel<V> {
        if self.lookup(index, generation) is Some {
            ArenaModel {
                slots: self.slots.update(index as int, (generation, Some(value))),
                free: self.free,
            }
        } else {
            self
        }
    }

    /// The arena after `clear`: every slot is vacant with its generation kept, and the free list
    /// holds every index in ascending order, so the highest index is reused first.
    pub open spec fn clear_spec(self) -> ArenaModel<V> {
        ArenaModel {
            slots: Seq::new(self.slots.len(), |i: int| (self.slots[i].0, None)),
            free: Seq::new(self.slots.len(), |i: int| i as usize),
        }
    }
}

/// One operation on an arena, for stating what holds over sequences of them.
pub enum ArenaOp<V> {
    Push(V),
    Remove(usize, usize),
    Update(usize, usize, V),
    Clear,
}

impl<V> ArenaModel<V> {
    /// The arena after one operation.
    pub open spec fn step(self, op: ArenaOp<V>) -> ArenaModel<V> {
        match op {
            ArenaOp::Push(v) => self.push_spec(v),
            ArenaOp::Remove(i, g) => self.remove_spec(i, g),
            ArenaOp::Update(i, g, v) => self.update_spec(i, g, v),
            ArenaOp::Clear => self.clear_spec(),
        }
    }

    /// The arena after a sequence of operations, first to last.
    pub open spec fn run(self, ops: Seq<ArenaOp<V>>) -> ArenaModel<V>
        decreases ops.len(),
    {
        if ops.len() == 0 {
            self
        } else {
            self.step(ops[0]).run(ops.drop_first())
        }
    }

    /// The arena after pushing `values` in order, with the handles handed out.
    pub open spec fn push_all(self, values: Seq<V>) -> (ArenaModel<V>, Seq<(usize, usize)>)
        decreases values.len(),
    {
        if values.len() == 0 {
            (self, Seq::empty())
        } else {
            let (m, handles) = self.push_all(values.drop_last());
            (m.push_spec(values.last()), handles.push(m.next_handle()))
        }
    }

    /// A handle is stale when its slot has moved past its generation, or sits vacant at it.
    pub open spec fn is_stale(self, index: usize, generation: usize) -> bool {
        &&& (index as int) < self.slots.len()
        &&& (self.slots[index as int].0 > generation || (self.slots[index as int].0 == generation
            && self.slots[index as int].1 is None))
    }
}

proof fn lemma_step_keeps_stale<V>(m: ArenaModel<V>, op: ArenaOp<V>, index: usize, generation: usize)
    requires
        m.is_stale(index, generation),
    ensures
        m.step(op).is_stale(index, generation),
{
}

proof fn lemma_run_keeps_stale<V>(m: ArenaModel<V>, ops: Seq<ArenaOp<V>>, index: usize, generation: usize)
    requires
        m.is_stale(index, generation),
    ensures
        m.run(ops).is_stale(index, generation),
    decreases ops.len(),
{
    if ops.len() > 0 {
        lemma_step_keeps_stale(m, ops[0], index, generation);
        lemma_run_keeps_stale(m.step(ops[0]), ops.drop_first(), index, generation);
    }
}

/// Once the value a handle reaches is removed, that handle reaches nothing, whatever pushes,
/// removals, in-place updates and clears follow, also when a later push reuses its index.
pub proof fn lemma_removed_handle_stays_dead<V>(
    m: ArenaModel<V>,
    index: usize,
    generation: usize,
    later: Seq<ArenaOp<V>>,
)
    requires
        m.lookup(index, generation) is Some,
    ensures
        m.remove_spec(index, generation).lookup(index, generation) is None,
        m.remove_spec(index, generation).run(later).lookup(index, generation) is None,
{
    lemma_run_keeps_stale(m.remove_spec(index, generation), later, index, generation);
}

/// After a live handle's value is removed, the next push reuses its index one generation on: the
/// removed handle reaches nothing and the new one reaches the pushed value. (A slot whose
/// generation is exhausted is not reused, hence the bound.)
pub proof fn lemma_push_after_remove_reuses_slot<V>(m: ArenaModel<V>, index: usize, generation: usize, value: V)
    requires
        m.lookup(index, generation) is Some,
        generation < usize::MAX,
    ensures
        m.remove_spec(index, generation).next_handle() == (index, (generation + 1) as usize),
        m.remove_spec(index, generation).push_spec(value).lookup(index, generation) is None,
        m.remove_spec(index, generation).push_spec(value).lookup(index, (generation + 1) as usize) == Some(value),
{
}

proof fn lemma_all_vacant<V>(slots: Seq<(usize, Option<V>)>)
    requires
        forall|i: int| 0 <= i < slots.len() ==> slots[i].1 is None,
    ensures
        vacant_slots(slots) == slots.len(),
    decreases slots.len(),
{
    if slots.len() > 0 {
        lemma_all_vacant(slots.drop_last());
    }
}

/// `clear` on an arena of N slots leaves N distinct free indices and no value that any handle
/// reaches.
pub proof fn lemma_clear_frees_every_slot<V>(m: ArenaModel<V>)
    requires
        m.slots.len() <= usize::MAX,
    ensures
        m.clear_spec().free.len() == m.slots.len(),
        m.clear_spec().free.no_duplicates(),
        m.clear_spec().slots.len() == m.slots.len(),
        vacant_slots(m.clear_spec().slots) == m.slots.len(),
        forall|i: usize, g: usize| #[trigger] m.clear_spec().lookup(i, g) is None,
{
    lemma_all_vacant(m.clear_spec().slots);
}

proof fn lemma_push_all_after_clear<V>(m: ArenaModel<V>, values: Seq<V>)
    requires
        m.slots.len() <= usize::MAX,
        values.len() <= m.slots.len(),
        forall|i: int| 0 <= i < m.slots.len() ==> m.slots[i].0 < usize::MAX,
    ensures
        ({
            let (a, handles) = m.clear_spec().push_all(values);
            let n = m.slots.len() as int;
            let k = values.len() as int;
            &&& a.slots.len() == n
            &&& a.free == Seq::new((n - k) as nat, |i: int| i as usize)
            &&& forall|i: int| 0 <= i < n - k ==> a.slots[i] == (m.slots[i].0, None::<V>)
            &&& forall|i: int| n - k <= i < n ==> a.slots[i].0 == m.slots[i].0 + 1
            &&& handles.len() == k
            &&& forall|j: int|
                0 <= j < k ==> handles[j] == ((n - 1 - j) as usize, (m.slots[n - 1 - j].0 + 1) as usize)
        }),
    decreases values.len(),
{
    let n = m.slots.len() as int;
    let k = values.len() as int;
    if k == 0 {
        assert(m.clear_spec().free =~= Seq::new(n as nat, |i: int| i as usize));
    } else {
        lemma_push_all_after_clear(m, values.drop_last());
        let (b, hs) = m.clear_spec().push_all(values.drop_last());
        assert(b.free.last() == (n - k) as usize);
        assert(b.reuses_free());
        let (a, handles) = m.clear_spec().push_all(values);
        assert(a.free =~= Seq::new((n - k) as nat, |i: int| i as usize));
        assert forall|i: int| 0 <= i < n - k implies a.slots[i] == (m.slots[i].0, None::<V>) by {
            assert(a.slots[i] == b.slots[i]);
        }
        assert forall|i: int| n - k <= i < n implies a.slots[i].0 == m.slots[i].0 + 1 by {
            if i > n - k {
                assert(a.slots[i] == b.slots[i]);
            }
        }
        assert forall|j: int| 0 <= j < k implies handles[j] == ((n - 1 - j) as usize, (m.slots[n - 1
            - j].0 + 1) as usize) by {
            if j < k - 1 {
                assert(handles[j] == hs[j]);
            }
        }
    }
}

/// After `clear`, the next N pushes (N at most the number of slots) reuse the slots from the
/// highest index down, each at one generation past the slot's last, so every new handle's
/// generation exceeds that of any handle handed out for its slot before the clear. (A slot whose generation is exhausted is never
/// reused, hence the bound on generations.)
pub proof fn lemma_pushes_after_clear_reuse_slots<V>(m: ArenaModel<V>, values: Seq<V>)
    requires
        m.slots.len() <= usize::MAX,
        values.len() <= m.slots.len(),
        forall|i: int| 0 <= i < m.slots.len() ==> m.slots[i].0 < usize::MAX,
    ensures
        ({
            let (a, handles) = m.clear_spec().push_all(values);
            let n = m.slots.len() as int;
            &&& handles.len() == values.len()
            &&& forall|j: int|
                0 <= j < values.len() ==> #[trigger] handles[j] == ((n - 1 - j) as usize, (
                m.slots[n - 1 - j].0 + 1) as usize)
            &&& forall|j: int|
                0 <= j < values.len() ==> (#[trigger] handles[j]).1 > m.slots[handles[j].0 as int].0
            &&& a.free.len() == n - values.len()
            &&& a.slots.len() == n
        }),
{
    lemma_push_all_after_clear(m, values);
}

/// With nothing on the free list, `push` appends a new highest slot at generation 0.
pub proof fn lemma_push_without_free_appends<V>(m: ArenaModel<V>, value: V)
    requires
        m.slots.len() < usize::MAX,
        m.free.len() == 0,
    ensures
        m.next_handle() == (m.slots.len() as usize, 0usize),
        m.push_spec(value).slots == m.slots.push((0usize, Some(value))),
        m.push_spec(value).lookup(m.slots.len() as usize, 0) == Some(value),
{
}

proof fn lemma_map_update<R>(s: Seq<Resource<R>>, i: int, x: Resource<R>)
    requires
        0 <= i < s.len(),
    ensures
        s.update(i, x).map_values(|r: Resource<R>| (r.generation, r.value))
            == s.map_values(|r: Resource<R>| (r.generation, r.value)).update(i, (x.generation, x.value)),
{
    assert(s.update(i, x).map_values(|r: Resource<R>| (r.generation, r.value))
        =~= s.map_values(|r: Resource<R>| (r.generation, r.value)).update(i, (x.generation, x.value)));
}

/// Number of vacant slots in `slots`.
pub open spec fn vacant_slots<V>(slots: Seq<(usize, Option<V>)>) -> nat
    decreases slots.len(),
{
    if slots.len() == 0 {
        0
    } else {
        vacant_slots(slots.drop_last()) + if slots.last().1 is None {
            1nat
        } else {
            0nat
        }
    }
}

struct Resource<R> {
    value: Option<R>,
    generation: usize,
}

/// Generation-checked slot allocator: maps handles to values and reuses the slots of removed
/// values, so that a handle to a removed value never reaches a value pushed later.
pub struct GenerationVec<K, V> {
    values: Vec<Resource<V>>,
    free: Vec<usize>,
    phantom: PhantomData<K>,
}

impl<K, V> View for GenerationVec<K, V> {
    type V = ArenaModel<V>;

    closed spec fn view(&self) -> ArenaModel<V> {
        ArenaModel {
            slots: self.values@.map_values(|r: Resource<V>| (r.generation, r.value)),
            free: self.free@,
        }
    }
}

impl<K, V> Default for GenerationVec<K, V> {
    fn default() -> (r: Self)
        ensures
            r.wf(),
            r@.slots.len() == 0,
            r@.free.len() == 0,
    {
        Self::with_capacity(10)
    }
}

impl<K, V> GenerationVec<K, V> {
    pub open spec fn wf(&self) -> bool {
        self@.wf()
    }

    /// The value `handle` reaches, if any.
    pub open spec fn lookup(&self, handle: Handle<K>) -> Option<V> {
        self@.lookup(handle.index, handle.generation)
    }

    /// An empty arena.
    pub fn new() -> (r: Self)
        ensures
            r.wf(),
            r@.slots.len() == 0,
            r@.free.len() == 0,
    {
        Self::with_capacity(10)
    }

    /// An empty arena that reserves room for `capacity` values.
    pub fn with_capacity(capacity: usize) -> (r: Self)
        ensures
            r.wf(),
            r@.slots.len() == 0,
            r@.free.len() == 0,
    {
        let r = GenerationVec {
            values: Vec::with_capacity(capacity),
            free: Vec::with_capacity(capacity),
            phantom: PhantomData,
        };
        assert(r@.slots =~= Seq::empty());
        r
    }

    /// Pushes a value and returns the handle that reaches it.
    pub fn push(&mut self, value: V) -> (h: Handle<K>)
        requires
            old(self).wf(),
        ensures
            final(self).wf(),
            final(self)@ == old(self)@.push_spec(value),
            (h.index, h.generation) == old(self)@.next_handle(),
            final(self).lookup(h) == Some(value),
    {
        let ghost m = self@;
        match self.free.pop() {
            Some(index) => {
                proof {
                    assert(m.free.last() == index);
                    assert(self.free@ =~= m.free.drop_last());
                }
                let generation = self.values[index].generation;
                if generation < usize::MAX {
                    let ghost slots_before = self.values@;
                    self.values.set(index, Resource { value: Some(value), generation: generation + 1 });
                    proof {
                        assert(self@.slots =~= m.push_spec(value).slots);
                        self.lemma_pop_keeps_wf(m, index);
                    }
                    return Handle { index, generation: generation + 1, phantom: PhantomData };
                }
            },
            None => {},
        }
        let index = self.values.len();
        self.values.push(Resource { value: Some(value), generation: 0 });
        proof {
            assert(self@.slots =~= m.push_spec(value).slots);
            assert(self@.free =~= m.push_spec(value).free);
            assert forall|i: int| 0 <= i < self@.free.len() implies (self@.free[i] as int) < self@.slots.len()
                && self@.slots[self@.free[i] as int].1 is None by {
                if m.free.len() > 0 {
                    assert(m.free.drop_last()[i] == m.free[i]);
                }
            }
            assert forall|j: usize| (j as int) < self@.slots.len() && self@.slots[j as int].1 is None && self@.slots[j as int].0 < usize::MAX
                implies self@.free.contains(j) by {
                assert(m.slots[j as int] == self@.slots[j as int]);
                assert(m.free.contains(j));
                let k = choose|k: int| 0 <= k < m.free.len() && m.free[k] == j;
                if m.free.len() > 0 && k == m.free.len() - 1 {
                    assert(m.slots[m.free.last() as int].0 == usize::MAX);
                    assert(false);
                }
                assert(self@.free[k] == j);
            }
        }
        Handle { index, generation: 0, phantom: PhantomData }
    }

    proof fn lemma_pop_keeps_wf(&self, m: ArenaModel<V>, index: usize)
        requires
            m.wf(),
            m.reuses_free(),
            m.free.last() == index,
            self@ == m.push_spec(self@.slots[index as int].1.unwrap()),
            self@.slots[index as int].1 is Some,
        ensures
            self.wf(),
    {
        let n = self@;
        assert forall|i: int| 0 <= i < n.free.len() implies (n.free[i] as int) < n.slots.len()
            && n.slots[n.free[i] as int].1 is None by {
            assert(n.free[i] == m.free[i]);
            assert(m.free[i] != m.free[m.free.len() - 1]);
        }
        assert forall|j: usize| (j as int) < n.slots.len() && n.slots[j as int].1 is None && n.slots[j as int].0 < usize::MAX
            implies n.free.contains(j) by {
            assert(j != index);
            assert(m.slots[j as int] == n.slots[j as int]);
            assert(m.free.contains(j));
            let k = choose|k: int| 0 <= k < m.free.len() && m.free[k] == j;
            assert(m.free.last() == m.free[m.free.len() - 1]);
            assert(k != m.free.len() - 1);
            assert(n.free[k] == j);
        }
    }

    /// Removes the value `handle` reaches and puts its index on the free list. The slot keeps its
    /// generation until it is reused. A handle that reaches nothing changes nothing.
    pub fn remove(&mut self, handle: Handle<K>)
        requires
            old(self).wf(),
        ensures
            final(self).wf(),
            final(self)@ == old(self)@.remove_spec(handle.index, handle.generation),
    {
        let ghost m = self@;
        if handle.index < self.values.len() && self.values[handle.index].generation == handle.generation
            && self.values[handle.index].value.is_some() {
            proof {
                assert(!m.free.contains(handle.index));
            }
            self.values.set(handle.index, Resource { value: None, generation: handle.generation });
            self.free.push(handle.index);
            proof {
                let n = self@;
                assert(n.slots =~= m.remove_spec(handle.index, handle.generation).slots);
                assert(n.free =~= m.remove_spec(handle.index, handle.generation).free);
                assert forall|i: int| 0 <= i < n.free.len() implies (n.free[i] as int) < n.slots.len()
                    && n.slots[n.free[i] as int].1 is None by {
                    if i < m.free.len() {
                        assert(n.free[i] == m.free[i]);
                    }
                }
                assert forall|j: usize| (j as int) < n.slots.len() && n.slots[j as int].1 is None && n.slots[j as int].0 < usize::MAX
                    implies n.free.contains(j) by {
                    if j == handle.index {
                        assert(n.free[n.free.len() - 1] == j);
                    } else {
                        assert(m.slots[j as int] == n.slots[j as int]);
                        assert(m.free.contains(j));
                        let k = choose|k: int| 0 <= k < m.free.len() && m.free[k] == j;
                        assert(n.free[k] == j);
                    }
                }
            }
        }
    }

    /// The value `handle` reaches, or `None` when its slot is vacant or has moved on to a newer
    /// generation.
    pub fn get(&self, handle: Handle<K>) -> (r: Option<&V>)
        ensures
            r matches Some(v) ==> self.lookup(handle) == Some(*v),
            r is None ==> self.lookup(handle) is None,
    {
        if handle.index < self.values.len() {
            let resource = &self.values[handle.index];
            if resource.generation == handle.generation {
                return match &resource.value {
                    Some(v) => Some(v),
                    None => None,
                };
            }
        }
        None
    }

    /// Mutable access to the value `handle` reaches; what is written through it becomes the
    /// slot's value, and nothing else changes.
    pub fn get_mut(&mut self, handle: Handle<K>) -> (r: Option<&mut V>)
        requires
            old(self).wf(),
        ensures
            final(self).wf(),
            match r {
                Some(v) => old(self).lookup(handle) == Some(*v) && final(self)@ == old(self)@.update_spec(
                    handle.index,
                    handle.generation,
                    *final(v),
                ),
                None => old(self).lookup(handle) is None && final(self)@ == old(self)@,
            },
    {
        self.update(handle)
    }

    /// Changes the value `handle` reaches in place, keeping every handle to it valid; meant for
    /// edits that keep the value's meaning. Same contract as [`Self::get_mut`].
    pub fn update(&mut self, handle: Handle<K>) -> (r: Option<&mut V>)
        requires
            old(self).wf(),
        ensures
            final(self).wf(),
            match r {
                Some(v) => old(self).lookup(handle) == Some(*v) && final(self)@ == old(self)@.update_spec(
                    handle.index,
                    handle.generation,
                    *final(v),
                ),
                None => old(self).lookup(handle) is None && final(self)@ == old(self)@,
            },
    {
        if handle.index < self.values.len() && self.values[handle.index].generation == handle.generation
            && self.values[handle.index].value.is_some() {
            let ghost values = self.values@;
            let resource = &mut self.values[handle.index];
            proof {
                lemma_map_update(values, handle.index as int, *final(resource));
            }
            resource.value.as_mut()
        } else {
            None
        }
    }

    /// Empties every slot and puts every index on the free list, highest index on top. Each
    /// slot keeps its generation, so the next push into it bumps the generation past every handle
    /// handed out before.
    pub fn clear(&mut self)
        requires
            old(self).wf(),
        ensures
            final(self).wf(),
            final(self)@ == old(self)@.clear_spec(),
    {
        let ghost m = self@;
        self.free.clear();
        let n = self.values.len();
        let mut i: usize = 0;
        while i < n
            invariant
                n == self.values@.len(),
                n == m.slots.len(),
                0 <= i <= n,
                self.free@ =~= Seq::new(i as nat, |k: int| k as usize),
                forall|k: int| 0 <= k < i ==> self@.slots[k] == (m.slots[k].0, None::<V>),
                forall|k: int| i <= k < n ==> self@.slots[k] == m.slots[k],
            decreases n - i,
        {
            let ghost before = self@.slots;
            let generation = self.values[i].generation;
            self.values.set(i, Resource { value: None, generation });
            self.free.push(i);
            proof {
                assert forall|k: int| 0 <= k <= i implies self@.slots[k] == (m.slots[k].0, None::<V>) by {
                    if k < i {
                        assert(before[k] == (m.slots[k].0, None::<V>));
                        assert(self@.slots[k] == before[k]);
                    }
                }
            }
            i = i + 1;
        }
        proof {
            assert(self@.slots =~= m.clear_spec().slots);
            assert(self@.free =~= m.clear_spec().free);
            assert forall|j: usize| (j as int) < self@.slots.len() implies self@.free.contains(j) by {
                assert(self@.free[j as int] == j);
            }
        }
    }

    /// Number of vacant slots.
    pub fn vacant_count(&self) -> (r: usize)
        ensures
            r == vacant_slots(self@.slots),
    {
        let mut count: usize = 0;
        let mut i: usize = 0;
        while i < self.values.len()
            invariant
                0 <= i <= self.values@.len(),
                count == vacant_slots(self@.slots.subrange(0, i as int)),
                count <= i,
            decreases self.values@.len() - i,
        {
            proof {
                assert(self@.slots.subrange(0, i + 1).drop_last() =~= self@.slots.subrange(0, i as int));
            }
            if self.values[i].value.is_none() {
                count = count + 1;
            }
            i = i + 1;
        }
        proof {
            assert(self@.slots.subrange(0, i as int) =~= self@.slots);
        }
        count
    }

    /// Number of slots, live or vacant.
    pub fn slot_count(&self) -> (r: usize)
        ensures
            r == self@.slots.len(),
    {
        self.values.len()
    }

    /// Number of indices waiting on the free list.
    pub fn free_len(&self) -> (r: usize)
        ensures
            r == self@.free.len(),
    {
        self.free.len()
    }
}

} // verus!
