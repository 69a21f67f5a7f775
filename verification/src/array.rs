//! Plain arrays: a vector read as a closed ring of vertices, and an array of
//! fixed capacity that is filled from the front.
use crate::{Color, ColorFn, VertexConsumer};
use vstd::prelude::*;

verus! {

/// A sequence read as a closed ring: the neighbours of the first and last
/// items wrap around.
pub trait PodBVector<T>: Sized {
    /// The items, in order.
    spec fn items(&self) -> Seq<T>;

    fn prev(&self, i: usize) -> (r: &T)
        requires
            0 < self.items().len(),
            self.items().len() + i <= usize::MAX,
        ensures
            *r == self.items()[(self.items().len() + i - 1) % (self.items().len() as int)],
    ;

    fn curr(&self, i: usize) -> (r: &T)
        requires
            i < self.items().len(),
        ensures
            *r == self.items()[i as int],
    ;

    fn next(&self, i: usize) -> (r: &T)
        requires
            0 < self.items().len(),
            i < usize::MAX,
        ensures
            *r == self.items()[(i + 1) % (self.items().len() as int)],
    ;

    /// Replaces the last item by `v`; on an empty sequence `v` becomes its
    /// only item.
    fn modify_last(&mut self, v: T)
        ensures
            final(self).items() == (if old(self).items().len() == 0 {
                seq![v]
            } else {
                old(self).items().drop_last().push(v)
            }),
    ;

    fn last(&self) -> (r: &T)
        requires
            0 < self.items().len(),
        ensures
            *r == self.items().last(),
    ;
}

pub type PodArray<T> = Vec<T>;

pub type VecPodB<T> = Vec<T>;

impl<C: Color> ColorFn<C> for Vec<C> {
    open spec fn count(&self) -> nat {
        self@.len()
    }

    fn size(&self) -> (r: u32)
        ensures
            r == self@.len() as u32,
    {
        self.len() as u32
    }

    fn get(&mut self, v: u32) -> (r: C)
        ensures
            r == old(self)@[v as int],
            final(self)@ == old(self)@,
    {
        self[v as usize]
    }
}

impl<T> PodBVector<T> for Vec<T> {
    open spec fn items(&self) -> Seq<T> {
        self@
    }

    fn prev(&self, i: usize) -> (r: &T) {
        let n = self.len();
        proof {
            vstd::arithmetic::div_mod::lemma_mod_bound((n + i - 1) as int, n as int);
        }
        &self[(n + i - 1) % n]
    }

    fn next(&self, i: usize) -> (r: &T) {
        let n = self.len();
        proof {
            vstd::arithmetic::div_mod::lemma_mod_bound((i + 1) as int, n as int);
        }
        &self[(i + 1) % n]
    }

    fn curr(&self, i: usize) -> (r: &T) {
        &self[i]
    }

    fn modify_last(&mut self, v: T) {
        self.pop();
        self.push(v);
    }

    fn last(&self) -> (r: &T) {
        &self[self.len() - 1]
    }
}

impl<T> VertexConsumer for Vec<T> {
    type ValueType = T;

    fn remove_all(&mut self)
        ensures
            final(self)@ == Seq::<T>::empty(),
    {
        self.clear()
    }

    fn add(&mut self, val: T)
        ensures
            final(self)@ == old(self)@.push(val),
    {
        self.push(val)
    }
}

/// An array of `SIZE` items, all set to a fill value at first, and a count
/// of the items added so far.
pub struct PodAutoArray<T: Copy, const SIZE: usize> {
    m_array: Vec<T>,
    m_size: usize,
}

impl<T: Copy, const SIZE: usize> PodAutoArray<T, SIZE> {
    /// The array holds exactly `SIZE` slots.
    pub open spec fn wf(&self) -> bool {
        self.slots().len() == SIZE
    }

    /// All `SIZE` slots, those not yet added to included.
    pub closed spec fn slots(&self) -> Seq<T> {
        self.m_array@
    }

    /// The number of items added.
    pub closed spec fn count(&self) -> nat {
        self.m_size as nat
    }

    pub fn new(t: T) -> (r: Self)
        ensures
            r.wf(),
            r.slots() == Seq::new(SIZE as nat, |i: int| t),
            r.count() == 0,
    {
        let mut a: Vec<T> = Vec::new();
        let mut k: usize = 0;
        while k < SIZE
            invariant
                k <= SIZE,
                a@ == Seq::new(k as nat, |i: int| t),
            decreases SIZE - k,
        {
            a.push(t);
            k += 1;
        }
        PodAutoArray { m_array: a, m_size: 0 }
    }

    pub fn size(&self) -> (r: usize)
        ensures
            r == self.count(),
    {
        self.m_size
    }

    pub fn at(&self, i: usize) -> (r: &T)
        requires
            self.wf(),
            i < SIZE,
        ensures
            *r == self.slots()[i as int],
    {
        &self.m_array[i]
    }

    /// Writes `v` into the first free slot.
    pub fn add(&mut self, v: T)
        requires
            old(self).wf(),
            old(self).count() < SIZE,
        ensures
            final(self).wf(),
            final(self).slots() == old(self).slots().update(old(self).count() as int, v),
            final(self).count() == old(self).count() + 1,
    {
        let n = self.m_size;
        self.m_array.set(n, v);
        self.m_size = n + 1;
    }

    /// Counts `size` more slots as added, without writing them.
    pub fn inc_size(&mut self, size: usize)
        requires
            old(self).count() + size <= usize::MAX,
        ensures
            final(self).wf() == old(self).wf(),
            final(self).slots() == old(self).slots(),
            final(self).count() == old(self).count() + size,
    {
        self.m_size += size;
    }

    pub fn value_at(&self, i: usize) -> (r: T)
        requires
            self.wf(),
            i < SIZE,
        ensures
            r == self.slots()[i as int],
    {
        self.m_array[i]
    }
}

/// Reading a slot after `add` gives what was added there, and every other
/// slot is as before.
pub proof fn lemma_add_then_read<T>(before: Seq<T>, count: nat, v: T, i: int)
    requires
        count < before.len(),
        0 <= i < before.len(),
    ensures
        before.update(count as int, v)[i] == (if i == count {
            v
        } else {
            before[i]
        }),
{
}

/// One call that changes the count of a `PodAutoArray`.
pub enum ArrayEdit {
    Add,
    IncSize(usize),
}

/// The count after the calls `edits`, from `c0`, as `add` and `inc_size`
/// state it: one more per `add`, `n` more per `inc_size(n)`.
pub open spec fn count_after(c0: nat, edits: Seq<ArrayEdit>) -> nat
    decreases edits.len(),
{
    if edits.len() == 0 {
        c0
    } else {
        let c = count_after(c0, edits.drop_last());
        match edits.last() {
            ArrayEdit::Add => c + 1,
            ArrayEdit::IncSize(n) => c + n as nat,
        }
    }
}

/// The number of `add` calls among `edits`.
pub open spec fn adds(edits: Seq<ArrayEdit>) -> nat
    decreases edits.len(),
{
    if edits.len() == 0 {
        0
    } else {
        adds(edits.drop_last()) + if edits.last() is Add {
            1nat
        } else {
            0nat
        }
    }
}

/// The sum of the arguments of the `inc_size` calls among `edits`.
pub open spec fn inc_total(edits: Seq<ArrayEdit>) -> nat
    decreases edits.len(),
{
    if edits.len() == 0 {
        0
    } else {
        inc_total(edits.drop_last()) + match edits.last() {
            ArrayEdit::Add => 0nat,
            ArrayEdit::IncSize(n) => n as nat,
        }
    }
}

/// The count of an array is the number of `add` calls plus the sum of the
/// `inc_size` arguments, in whatever order they came; a new array counts 0.
pub proof fn lemma_count_after_edits(c0: nat, edits: Seq<ArrayEdit>)
    ensures
        count_after(c0, edits) == c0 + adds(edits) + inc_total(edits),
    decreases edits.len(),
{
    if edits.len() > 0 {
        lemma_count_after_edits(c0, edits.drop_last());
    }
}

} // verus!
