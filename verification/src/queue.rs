//! The playlist: a list of elements, an order in which they are visited and a
//! position in that order.

use rand::seq::SliceRandom;
use vstd::prelude::*;

verus! {

/// What `go_next` does at the end of the order.
#[derive(Clone, Copy, Debug, PartialEq, Eq, Structural, PartialOrd, Ord)]
pub enum GoNextMode {
    /// Stop at the last position.
    Default,
    /// Wrap round to the first position.
    RepeatAll,
}

/// A playlist. `elements` keeps the order in which the elements were given,
/// `ordering` is the order in which they are visited, and `index` is the
/// current position in `ordering`.
pub struct Queue<T> {
    elements: Vec<T>,
    ordering: Vec<usize>,
    index: usize,
    is_shuffled: bool,
}

/// The mathematical value of a `Queue`.
pub struct QueueView<T> {
    pub elements: Seq<T>,
    pub ordering: Seq<usize>,
    pub index: int,
    pub is_shuffled: bool,
}

/// The order `0, 1, .., n - 1`.
pub open spec fn identity_ordering(n: nat) -> Seq<usize> {
    Seq::new(n, |i: int| i as usize)
}

/// `ordering` holds every index below `n` exactly once.
pub open spec fn is_permutation(ordering: Seq<usize>, n: nat) -> bool {
    ordering.to_multiset() == identity_ordering(n).to_multiset()
}

impl<T> QueueView<T> {
    /// The invariant of a queue: the order is a permutation of the indices of
    /// the elements, the position lies inside it, and an unshuffled queue
    /// visits its elements in the order given.
    pub open spec fn wf(self) -> bool {
        &&& self.ordering.len() == self.elements.len() <= usize::MAX
        &&& is_permutation(self.ordering, self.elements.len())
        &&& 0 <= self.index < self.elements.len()
        &&& !self.is_shuffled ==> self.ordering == identity_ordering(self.elements.len())
    }

    /// The element at the current position.
    pub open spec fn current(self) -> T {
        self.elements[self.ordering[self.index] as int]
    }

    /// Whether `go_next` finds a next position.
    pub open spec fn has_next(self, mode: GoNextMode) -> bool {
        mode == GoNextMode::RepeatAll || self.index + 1 < self.elements.len()
    }

    /// The queue after `go_next`.
    pub open spec fn advanced(self, mode: GoNextMode) -> Self {
        if mode == GoNextMode::RepeatAll {
            QueueView { index: (self.index + 1) % (self.elements.len() as int), ..self }
        } else if self.index + 1 < self.elements.len() {
            QueueView { index: self.index + 1, ..self }
        } else {
            self
        }
    }

    /// The queue after `go_previous_clamped`.
    pub open spec fn retreated(self) -> Self {
        if self.index > 0 {
            QueueView { index: self.index - 1, ..self }
        } else {
            self
        }
    }

    /// The unshuffled queue that plays the same element.
    pub open spec fn unshuffled(self) -> Self {
        if self.is_shuffled {
            QueueView {
                elements: self.elements,
                ordering: identity_ordering(self.elements.len()),
                index: self.ordering[self.index] as int,
                is_shuffled: false,
            }
        } else {
            self
        }
    }

    /// `self` is a freshly shuffled queue over `elements` that starts at the
    /// element with index `start`. Which permutation follows the first
    /// position is left open.
    pub open spec fn is_shuffle_starting_at(self, elements: Seq<T>, start: int) -> bool {
        &&& self.wf()
        &&& self.elements == elements
        &&& self.index == 0
        &&& self.ordering[0] == start
        &&& self.is_shuffled
    }

    /// `self` may come out of `to_shuffled` applied to `before`.
    pub open spec fn is_shuffle_of(self, before: Self) -> bool {
        if before.is_shuffled {
            self == before
        } else {
            self.is_shuffle_starting_at(before.elements, before.index)
        }
    }
}

/// An order that is a permutation of the indices below `n` holds only such
/// indices, and none of them twice.
pub proof fn lemma_permutation_in_range(ordering: Seq<usize>, n: nat)
    requires
        is_permutation(ordering, n),
        n <= usize::MAX,
    ensures
        ordering.len() == n,
        ordering.no_duplicates(),
        forall|i: int| 0 <= i < ordering.len() ==> 0 <= #[trigger] ordering[i] < n,
        forall|k: usize| k < n ==> #[trigger] ordering.contains(k),
{
    broadcast use vstd::seq_lib::group_to_multiset_ensures;

    let id = identity_ordering(n);
    assert(ordering.to_multiset().len() == id.to_multiset().len());
    assert(id.no_duplicates());
    id.lemma_multiset_has_no_duplicates();
    assert forall|x: usize| ordering.to_multiset().contains(x) implies ordering.to_multiset().count(
        x,
    ) == 1 by {
        assert(id.to_multiset().contains(x));
    }
    ordering.lemma_multiset_has_no_duplicates_conv();
    assert forall|i: int| 0 <= i < ordering.len() implies 0 <= #[trigger] ordering[i] < n by {
        assert(ordering.to_multiset().count(ordering[i]) > 0);
        assert(id.to_multiset().count(ordering[i]) > 0);
        assert(id.contains(ordering[i]));
        let j = choose|j: int| 0 <= j < id.len() && id[j] == ordering[i];
        assert(id[j] == j as usize);
    }
    assert forall|k: usize| k < n implies #[trigger] ordering.contains(k) by {
        assert(id[k as int] == k);
        assert(id.contains(k));
        assert(id.to_multiset().count(k) > 0);
        assert(ordering.to_multiset().count(k) > 0);
    }
}

/// Turning shuffle on and off again leaves the current element what it was:
/// any queue that `to_shuffled` may return plays the element that was
/// playing, and so does the queue that `to_unshuffled` makes of it.
pub proof fn lemma_shuffle_toggle_keeps_current<T>(before: QueueView<T>, shuffled: QueueView<T>)
    requires
        before.wf(),
        shuffled.is_shuffle_of(before),
    ensures
        shuffled.wf(),
        shuffled.current() == before.current(),
        shuffled.unshuffled().wf(),
        shuffled.unshuffled().current() == before.current(),
{
    lemma_permutation_in_range(before.ordering, before.elements.len());
    lemma_permutation_in_range(shuffled.ordering, shuffled.elements.len());
}

/// A queue shuffled from `elements` and `start` has a permutation of the
/// indices as its order, and the index at its position is `start`.
pub proof fn lemma_shuffled_queue_starts_at<T>(queue: QueueView<T>, elements: Seq<T>, start: int)
    requires
        queue.is_shuffle_starting_at(elements, start),
    ensures
        is_permutation(queue.ordering, elements.len()),
        queue.ordering[queue.index] == start,
        queue.current() == elements[start],
        0 <= start < elements.len(),
{
    lemma_permutation_in_range(queue.ordering, queue.elements.len());
}

/// With `GoNextMode::RepeatAll` the position after the last is the first:
/// the element reached is the first of the order, which in an unshuffled
/// queue is the first element.
pub proof fn lemma_repeat_all_wraps<T>(queue: QueueView<T>)
    requires
        queue.wf(),
        queue.index == queue.elements.len() - 1,
    ensures
        queue.has_next(GoNextMode::RepeatAll),
        queue.advanced(GoNextMode::RepeatAll).index == 0,
        queue.advanced(GoNextMode::RepeatAll).current() == queue.elements[queue.ordering[0] as int],
        !queue.is_shuffled ==> queue.advanced(GoNextMode::RepeatAll).current() == queue.elements[0],
{
}

/// Moving through a queue keeps its invariant, and its elements and order.
pub proof fn lemma_moves_keep_queue<T>(queue: QueueView<T>, mode: GoNextMode)
    requires
        queue.wf(),
    ensures
        queue.advanced(mode).wf(),
        queue.retreated().wf(),
        queue.unshuffled().wf(),
        queue.advanced(mode).ordering == queue.ordering,
        queue.retreated().ordering == queue.ordering,
{
    lemma_permutation_in_range(queue.ordering, queue.elements.len());
}

/// Shuffles `indices` in place with `rand`'s `SliceRandom::shuffle` and the
/// thread-local generator. The order that comes out is a matter of chance;
/// the contract claims only what every outcome has: the same items, each as
/// often as before.
#[verifier::external_body]
fn shuffle_indices(indices: &mut Vec<usize>)
    ensures
        final(indices)@.to_multiset() == old(indices)@.to_multiset(),
{
    indices.shuffle(&mut rand::thread_rng());
}

impl<T> View for Queue<T> {
    type V = QueueView<T>;

    closed spec fn view(&self) -> QueueView<T> {
        QueueView {
            elements: self.elements@,
            ordering: self.ordering@,
            index: self.index as int,
            is_shuffled: self.is_shuffled,
        }
    }
}

/// The indices below `n`, in order.
fn identity_indices(n: usize) -> (ordering: Vec<usize>)
    ensures
        ordering@ == identity_ordering(n as nat),
{
    let mut ordering: Vec<usize> = Vec::with_capacity(n);
    let mut i: usize = 0;
    while i < n
        invariant
            i <= n,
            ordering@ == identity_ordering(i as nat),
        decreases n - i,
    {
        ordering.push(i);
        i += 1;
        assert(ordering@ =~= identity_ordering(i as nat));
    }
    ordering
}

/// The indices below `n` without `skip`, in order.
fn indices_without(n: usize, skip: usize) -> (rest: Vec<usize>)
    requires
        skip < n,
    ensures
        rest@ == identity_ordering(n as nat).remove(skip as int),
{
    let ghost id = identity_ordering(n as nat);
    let mut rest: Vec<usize> = Vec::with_capacity(n - 1);
    let mut i: usize = 0;
    while i < skip
        invariant
            i <= skip < n,
            id == identity_ordering(n as nat),
            rest@ == id.subrange(0, i as int),
        decreases skip - i,
    {
        rest.push(i);
        i += 1;
        assert(rest@ =~= id.subrange(0, i as int));
    }
    i = skip + 1;
    while i < n
        invariant
            skip < i <= n,
            id == identity_ordering(n as nat),
            rest@ == id.subrange(0, skip as int) + id.subrange(skip + 1, i as int),
        decreases n - i,
    {
        rest.push(i);
        i += 1;
        assert(rest@ =~= id.subrange(0, skip as int) + id.subrange(skip + 1, i as int));
    }
    assert(rest@ =~= id.remove(skip as int));
    rest
}

impl<T: Clone> Clone for Queue<T> {
    /// A queue with the same order and position over clones of the elements.
    fn clone(&self) -> (queue: Self)
        ensures
            queue@.ordering == self@.ordering,
            queue@.index == self@.index,
            queue@.is_shuffled == self@.is_shuffled,
            queue@.elements.len() == self@.elements.len(),
    {
        proof {
            use_type_invariant(self);
        }
        Queue {
            elements: self.elements.clone(),
            ordering: self.ordering.clone(),
            index: self.index,
            is_shuffled: self.is_shuffled,
        }
    }
}

impl<T> Queue<T> {
    /// Every queue is well formed.
    #[verifier::type_invariant]
    pub open spec fn inv(self) -> bool {
        self@.wf()
    }

    /// A queue that visits `elements` in the order given, starting at
    /// `start_index`; `None` where `start_index` is not an index of
    /// `elements`.
    pub fn from_iter(elements: Vec<T>, start_index: usize) -> (queue: Option<Self>)
        ensures
            queue is Some <==> start_index < elements.len(),
            queue matches Some(q) ==> q@ == (QueueView {
                elements: elements@,
                ordering: identity_ordering(elements@.len()),
                index: start_index as int,
                is_shuffled: false,
            }) && q@.wf(),
    {
        if elements.len() <= start_index {
            None
        } else {
            let ordering = identity_indices(elements.len());
            Some(Queue { ordering, elements, index: start_index, is_shuffled: false })
        }
    }

    fn from_iter_shuffled_unchecked(elements: Vec<T>, start_index: usize) -> (queue: Self)
        requires
            start_index < elements.len(),
        ensures
            queue@.is_shuffle_starting_at(elements@, start_index as int),
    {
        let n = elements.len();
        let ghost id = identity_ordering(n as nat);
        let mut rest = indices_without(n, start_index);
        let ghost rest_before = rest@;
        shuffle_indices(&mut rest);
        let ghost rest_after = rest@;
        let mut ordering: Vec<usize> = Vec::with_capacity(n);
        ordering.push(start_index);
        ordering.append(&mut rest);
        proof {
            broadcast use vstd::seq_lib::group_to_multiset_ensures;

            let head = seq![start_index];
            let tail = ordering@.subrange(1, ordering@.len() as int);
            assert(ordering@ =~= head + tail);
            assert(tail =~= rest_after);
            vstd::seq_lib::lemma_multiset_commutative(head, tail);
            assert(id[start_index as int] == start_index);
            assert(id.remove(start_index as int).to_multiset() =~= id.to_multiset().remove(
                start_index,
            ));
            assert(id.to_multiset().count(start_index) > 0);
            assert(head.to_multiset() =~= vstd::multiset::Multiset::singleton(start_index)) by {
                assert(head =~= Seq::<usize>::empty().push(start_index));
            }
            assert(ordering@.to_multiset() =~= id.to_multiset());
            assert(ordering@.to_multiset().len() == id.to_multiset().len());
        }
        Queue { ordering, elements, index: 0, is_shuffled: true }
    }

    /// A shuffled queue over `elements` whose first position is the element
    /// at `start_index`; `None` where `start_index` is not an index of
    /// `elements`.
    pub fn from_iter_shuffled(elements: Vec<T>, start_index: usize) -> (queue: Option<Self>)
        ensures
            queue is Some <==> start_index < elements.len(),
            queue matches Some(q) ==> q@.is_shuffle_starting_at(elements@, start_index as int),
    {
        if elements.len() <= start_index {
            None
        } else {
            Some(Queue::from_iter_shuffled_unchecked(elements, start_index))
        }
    }

    /// The same elements in a shuffled order that starts with the current
    /// element. A queue that is shuffled already is returned as it is.
    pub fn to_shuffled(self) -> (queue: Self)
        ensures
            queue@.is_shuffle_of(self@),
            queue@.wf(),
    {
        proof {
            use_type_invariant(&self);
        }
        if self.is_shuffled {
            self
        } else {
            Queue::from_iter_shuffled_unchecked(self.elements, self.index)
        }
    }

    /// The same elements in the order given, positioned at the current
    /// element. A queue that is not shuffled is returned as it is.
    pub fn to_unshuffled(self) -> (queue: Self)
        ensures
            queue@ == self@.unshuffled(),
            queue@.wf(),
    {
        proof {
            use_type_invariant(&self);
            lemma_permutation_in_range(self@.ordering, self@.elements.len());
        }
        if self.is_shuffled {
            let ordering = identity_indices(self.elements.len());
            let index = self.ordering[self.index];
            Queue { ordering, elements: self.elements, index, is_shuffled: false }
        } else {
            self
        }
    }

    /// Whether a position lies before the current one.
    pub fn has_previous(&self) -> (previous: bool)
        ensures
            previous == (self@.index > 0),
    {
        self.index > 0
    }

    /// The element at the current position.
    pub fn current(&self) -> (element: &T)
        ensures
            *element == self@.current(),
            self@.wf(),
    {
        proof {
            use_type_invariant(self);
            lemma_permutation_in_range(self@.ordering, self@.elements.len());
        }
        &self.elements[self.ordering[self.index]]
    }

    /// Moves to the next position and returns its element. With
    /// `GoNextMode::RepeatAll` the position after the last is the first;
    /// with `GoNextMode::Default` the last position has no next one, and the
    /// queue stays where it is.
    pub fn go_next(&mut self, mode: GoNextMode) -> (next: Option<&T>)
        ensures
            final(self)@ == old(self)@.advanced(mode),
            final(self)@.wf(),
            next is Some <==> old(self)@.has_next(mode),
            next matches Some(element) ==> *element == old(self)@.advanced(mode).current(),
    {
        proof {
            use_type_invariant(&*self);
        }
        let len = self.elements.len();
        if mode == GoNextMode::RepeatAll {
            self.index = (self.index + 1) % len;
            Some(self.current())
        } else if self.index + 1 < len {
            self.index += 1;
            Some(self.current())
        } else {
            None
        }
    }

    /// Moves to the previous position, if there is one, and returns the
    /// element at the position reached.
    pub fn go_previous_clamped(&mut self) -> (element: &T)
        ensures
            final(self)@ == old(self)@.retreated(),
            final(self)@.wf(),
            *element == old(self)@.retreated().current(),
    {
        proof {
            use_type_invariant(&*self);
        }
        if self.index > 0 {
            self.index -= 1;
        }
        self.current()
    }
}

} // verus!
