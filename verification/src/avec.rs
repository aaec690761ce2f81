//! A growable vector that fills a borrowed, fixed store first and moves to the
//! heap once the store is full.
use vstd::prelude::*;

verus! {

/// What an [`AVec`] stands for: the capacity of the store it was made with,
/// the items pushed so far, oldest first, and where the items live.
pub struct AVecView<T> {
    /// Number of slots of the store.
    pub capacity: nat,
    /// The items pushed, oldest first.
    pub items: Seq<T>,
    /// The items live in a heap vector of the `AVec`'s own, and the store is
    /// no longer referenced. Otherwise they live in the store.
    pub on_heap: bool,
}

impl<T> AVecView<T> {
    /// The vector over a store of `capacity` slots before anything is pushed.
    pub open spec fn empty(capacity: nat) -> Self {
        AVecView { capacity, items: Seq::empty(), on_heap: false }
    }

    /// The number of items held.
    pub open spec fn len(self) -> nat {
        self.items.len()
    }

    /// Whether the store is used up: it has no slot left for another item. A
    /// store without slots is used up from the start.
    pub open spec fn is_allocated(self) -> bool {
        self.items.len() >= self.capacity
    }

    /// The vector after one more item. The item that fills the last slot of
    /// the store, or finds no slot at all, sends the items to the heap, and
    /// there they stay.
    pub open spec fn push(self, item: T) -> Self {
        AVecView {
            capacity: self.capacity,
            items: self.items.push(item),
            on_heap: self.on_heap || self.items.len() + 1 >= self.capacity,
        }
    }

    /// The vector after `items` have been pushed one at a time, first to last.
    pub open spec fn push_all(self, items: Seq<T>) -> Self
        decreases items.len(),
    {
        if items.len() == 0 {
            self
        } else {
            self.push(items.first()).push_all(items.drop_first())
        }
    }
}

/// Pushing `items` one at a time leaves the capacity as it was and puts
/// `items`, in their order, behind what the vector held. Items that are on the
/// heap stay there; items in the store are on the heap afterwards if and only
/// if something was pushed and the store has no slot left.
pub proof fn lemma_push_all<T>(start: AVecView<T>, items: Seq<T>)
    ensures
        start.push_all(items).capacity == start.capacity,
        start.push_all(items).items == start.items + items,
        start.on_heap ==> start.push_all(items).on_heap,
        !start.on_heap ==> (start.push_all(items).on_heap <==> items.len() > 0 && start.len()
            + items.len() >= start.capacity),
    decreases items.len(),
{
    if items.len() > 0 {
        lemma_push_all(start.push(items.first()), items.drop_first());
        assert(start.items.push(items.first()) + items.drop_first() =~= start.items + items);
    }
}

/// Filling a new vector over a store of `capacity` slots with `items`, one
/// push at a time: after any number `pushed` of them the vector holds exactly
/// the items pushed, in the order of the pushes, and it reports that it is
/// allocated if and only if `pushed` has reached `capacity`. So it is first
/// allocated by the push that fills the last slot, and stays so. From the
/// first push on, the items are on the heap exactly when it is allocated.
pub proof fn lemma_spills_at_capacity<T>(capacity: nat, items: Seq<T>, pushed: int)
    requires
        0 <= pushed <= items.len(),
    ensures
        ({
            let avec = AVecView::<T>::empty(capacity).push_all(items.take(pushed));
            &&& avec.capacity == capacity
            &&& avec.len() == pushed
            &&& avec.items == items.take(pushed)
            &&& avec.is_allocated() <==> pushed >= capacity
            &&& avec.on_heap <==> pushed > 0 && pushed >= capacity
        }),
{
    let start = AVecView::<T>::empty(capacity);
    lemma_push_all(start, items.take(pushed));
}

/// A vector over a store without slots is allocated from the start, and the
/// first push gives it one item, on the heap.
pub proof fn lemma_no_store_spills_at_once<T>(item: T)
    ensures
        AVecView::<T>::empty(0).is_allocated(),
        !AVecView::<T>::empty(0).on_heap,
        AVecView::<T>::empty(0).push(item).len() == 1,
        AVecView::<T>::empty(0).push(item).items == seq![item],
        AVecView::<T>::empty(0).push(item).is_allocated(),
        AVecView::<T>::empty(0).push(item).on_heap,
{
}

/// Where the items of an [`AVec`] live.
enum Storage<'a, T> {
    /// In the first `fill` slots of the borrowed store.
    Inline { store: &'a mut [Option<T>], fill: usize },
    /// In a vector of the buffer's own; the store is no longer referenced.
    Spilled { heap: Vec<T> },
}

/// A growable vector with a backing slice that moves its elements to the heap
/// once the slice is full.
pub struct AVec<'a, T> {
    /// Number of slots of the store the vector was made with.
    stack_sz: usize,
    inner: Storage<'a, T>,
}

/// Takes the items out of the first `count` slots of `store`, in slot order.
fn drain_slots<T>(store: &mut [Option<T>], count: usize) -> (heap: Vec<T>)
    requires
        count <= old(store)@.len(),
        forall|i: int| 0 <= i < count ==> (#[trigger] old(store)@[i]) is Some,
    ensures
        heap@ == Seq::new(count as nat, |i: int| old(store)@[i]->0),
        final(store)@.len() == old(store)@.len(),
        forall|i: int| 0 <= i < count ==> (#[trigger] final(store)@[i]) is None,
        forall|i: int|
            count <= i < old(store)@.len() ==> (#[trigger] final(store)@[i]) == old(store)@[i],
{
    // `store` has at least `count` slots, each as large as a `T` or larger,
    // so a vector of `count` values of `T` can exist.
    let mut heap: Vec<T> = Vec::with_capacity(count);
    let mut i: usize = 0;
    while i < count
        invariant
            i <= count <= store@.len(),
            store@.len() == old(store)@.len(),
            forall|j: int| 0 <= j < i ==> (#[trigger] store@[j]) is None,
            forall|j: int| i <= j < store@.len() ==> (#[trigger] store@[j]) == old(store)@[j],
            forall|j: int| 0 <= j < count ==> (#[trigger] old(store)@[j]) is Some,
            heap@ == Seq::new(i as nat, |j: int| old(store)@[j]->0),
        decreases count - i,
    {
        let slot = store[i].take();
        match slot {
            Some(item) => {
                heap.push(item);
            },
            None => {},
        }
        i = i + 1;
    }
    heap
}

impl<'a, T> Storage<'a, T> {
    /// The items held, oldest first.
    spec fn items(self) -> Seq<T> {
        match self {
            Storage::Inline { store, fill } => Seq::new(fill as nat, |i: int| store@[i]->0),
            Storage::Spilled { heap } => heap@,
        }
    }

    /// Holds of the storage of a vector that was made over a store of
    /// `capacity` slots: while the items are inline, the store borrowed is
    /// that store, and its first `fill` slots are the filled ones.
    spec fn well_formed(self, capacity: usize) -> bool {
        match self {
            Storage::Inline { store, fill } => {
                &&& store@.len() == capacity
                &&& fill <= capacity
                &&& forall|i: int| 0 <= i < fill ==> (#[trigger] store@[i]) is Some
            },
            Storage::Spilled { .. } => true,
        }
    }

    /// Storage that holds nothing and borrows nothing.
    fn vacant() -> (storage: Self)
        ensures
            storage.items() == Seq::<T>::empty(),
            storage is Spilled,
            forall|capacity: usize| storage.well_formed(capacity),
    {
        Storage::Spilled { heap: Vec::new() }
    }

    /// The number of items held.
    fn len(&self) -> (len: usize)
        ensures
            len == self.items().len(),
    {
        match self {
            Storage::Inline { fill, .. } => *fill,
            Storage::Spilled { heap } => heap.len(),
        }
    }

    /// Moves the items out of the store into a vector on the heap, in order,
    /// and lets go of the store.
    fn move_to_heap(&mut self, capacity: usize)
        requires
            old(self).well_formed(capacity),
        ensures
            final(self).well_formed(capacity),
            final(self).items() == old(self).items(),
            *final(self) is Spilled,
    {
        let mut moved: Option<Vec<T>> = None;
        match self {
            Storage::Inline { store, fill } => {
                let heap = drain_slots(store, *fill);
                moved = Some(heap);
            },
            Storage::Spilled { .. } => {},
        }
        match moved {
            Some(heap) => {
                *self = Storage::Spilled { heap };
            },
            None => {},
        }
    }

    /// Puts `item` behind the items held: into the next free slot of the
    /// store, or, where the store has none left, at the end of the heap
    /// vector. A store whose last slot this fills is emptied into the heap.
    fn push(&mut self, capacity: usize, item: T)
        requires
            old(self).well_formed(capacity),
        ensures
            final(self).well_formed(capacity),
            final(self).items() == old(self).items().push(item),
            *final(self) is Spilled <==> *old(self) is Spilled || old(self).items().len() + 1
                >= capacity,
    {
        let no_slot_left = match self {
            Storage::Inline { fill, .. } => *fill >= capacity,
            Storage::Spilled { .. } => false,
        };
        if no_slot_left {
            // Only a store without slots gets here: a store with slots is
            // emptied by the push that fills it.
            self.move_to_heap(capacity);
        }
        match self {
            Storage::Spilled { heap } => {
                heap.push(item);
            },
            Storage::Inline { store, fill } => {
                let slot = *fill;
                store[slot] = Some(item);
                *fill = slot + 1;
                if slot + 1 >= capacity {
                    self.move_to_heap(capacity);
                }
            },
        }
    }

    /// The item in place `index`, counting from zero, if there is one.
    fn get(&self, capacity: usize, index: usize) -> (item: Option<&T>)
        requires
            self.well_formed(capacity),
        ensures
            item == (if index < self.items().len() {
                Some(&self.items()[index as int])
            } else {
                None
            }),
    {
        match self {
            Storage::Inline { store, fill } => {
                if index < *fill {
                    store[index].as_ref()
                } else {
                    None
                }
            },
            Storage::Spilled { heap } => {
                if index < heap.len() {
                    Some(&heap[index])
                } else {
                    None
                }
            },
        }
    }

    /// Destroys the items that are still in the store.
    fn clear_store(&mut self, capacity: usize)
        requires
            old(self).well_formed(capacity),
        ensures
            final(self).well_formed(capacity),
            *old(self) is Inline ==> *final(self) is Inline && final(self).items().len() == 0,
            *old(self) is Spilled ==> *final(self) == *old(self),
        opens_invariants none
        no_unwind
    {
        match self {
            Storage::Inline { store, fill } => {
                let count = *fill;
                *fill = 0;
                let mut i: usize = 0;
                while i < count
                    invariant
                        count <= store@.len(),
                        store@.len() == capacity,
                    decreases count - i,
                {
                    store[i] = None;
                    i = i + 1;
                }
            },
            Storage::Spilled { .. } => {},
        }
    }
}

impl<'a, T> AVec<'a, T> {
    /// Holds of every `AVec` at every point where other code can see it.
    #[verifier::type_invariant]
    spec fn well_formed(&self) -> bool {
        self.inner.well_formed(self.stack_sz)
    }

    /// The capacity of the store, the items pushed so far, and where they
    /// live.
    pub closed spec fn view(&self) -> AVecView<T> {
        AVecView {
            capacity: self.stack_sz as nat,
            items: self.inner.items(),
            on_heap: self.inner is Spilled,
        }
    }

    /// Have the elements been moved to the heap? That is, has the store no
    /// slot left: the push that fills the last slot moves them. A store
    /// without slots counts as used up before the first push.
    pub fn is_allocated(&self) -> (allocated: bool)
        ensures
            allocated == self@.is_allocated(),
    {
        self.inner.len() >= self.stack_sz
    }

    /// Create a new `AVec` with this backing buffer. What the slots of
    /// `stack` hold is of no account: a slot is overwritten when it is used.
    pub fn new(stack: &'a mut [Option<T>]) -> (avec: Self)
        ensures
            avec@ == AVecView::<T>::empty(old(stack)@.len()),
    {
        let stack_sz = stack.len();
        let avec = AVec { stack_sz, inner: Storage::Inline { store: stack, fill: 0 } };
        assert(avec@.items =~= Seq::<T>::empty());
        avec
    }

    /// Insert an element into this `AVec`: into the next free slot of the
    /// store, or, once the store is used up, at the end of the heap vector.
    /// The push that fills the last slot moves all items to the heap.
    pub fn push(&mut self, item: T)
        ensures
            final(self)@ == old(self)@.push(item),
    {
        proof {
            use_type_invariant(&*self);
        }
        // The storage is taken out while it changes and put back when it is
        // whole again: a panic on the way leaves `self` empty, not broken.
        let mut inner = Storage::vacant();
        core::mem::swap(&mut self.inner, &mut inner);
        inner.push(self.stack_sz, item);
        self.inner = inner;
    }

    /// The number of elements in this `AVec`.
    pub fn len(&self) -> (len: usize)
        ensures
            len == self@.len(),
    {
        self.inner.len()
    }

    /// The item pushed `index`-th, counting from zero, or `None` where fewer
    /// items have been pushed.
    pub fn get(&self, index: usize) -> (item: Option<&T>)
        ensures
            item == (if index < self@.len() {
                Some(&self@.items[index as int])
            } else {
                None
            }),
    {
        proof {
            use_type_invariant(self);
        }
        self.inner.get(self.stack_sz, index)
    }
}

impl<'a, T> Drop for AVec<'a, T> {
    /// Destroys the items that are still in the store, which stays with its
    /// owner. Items on the heap go with the vector that holds them.
    fn drop(&mut self)
        ensures
            final(self)@.capacity == old(self)@.capacity,
            final(self)@.on_heap == old(self)@.on_heap,
            final(self)@.items == (if old(self)@.on_heap {
                old(self)@.items
            } else {
                Seq::<T>::empty()
            }),
        opens_invariants none
        no_unwind
    {
        proof {
            use_type_invariant(&*self);
        }
        self.inner.clear_store(self.stack_sz);
    }
}

} // verus!
