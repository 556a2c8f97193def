//! The open list: a min-first priority queue of generated nodes that await expansion.
//!
//! Elements are ordered by ascending estimate, ties broken by ascending node index, so that
//! among nodes of equal estimate the one generated first is expanded first.

use vstd::multiset::Multiset;
use vstd::prelude::*;
use vstd::seq_lib::group_to_multiset_ensures;

verus! {

/// A node of the search graph, named by its index, with the estimate it was queued under.
#[derive(Clone, Copy, Debug, PartialEq, Eq, Structural)]
pub struct Element {
    pub index: usize,
    pub estimate: usize,
}

impl Element {
    /// `self` is expanded strictly before `other`: its estimate is smaller, or the estimates
    /// tie and its index is smaller.
    pub open spec fn precedes(self, other: Element) -> bool {
        self.estimate < other.estimate || (self.estimate == other.estimate && self.index
            < other.index)
    }

    /// `other` is not expanded strictly before `self`.
    pub open spec fn no_later_than(self, other: Element) -> bool {
        !other.precedes(self)
    }

    /// Decides [`Element::precedes`].
    pub fn comes_before(&self, other: &Element) -> (r: bool)
        ensures
            r == self.precedes(*other),
    {
        self.estimate < other.estimate || (self.estimate == other.estimate && self.index
            < other.index)
    }
}

/// `e` occurs in `m` and nothing in `m` is expanded strictly before it.
pub open spec fn is_least(m: Multiset<Element>, e: Element) -> bool {
    m.count(e) > 0 && forall|x: Element| m.count(x) > 0 ==> e.no_later_than(x)
}

/// The element of a non-empty `m` that is expanded first.
pub open spec fn least(m: Multiset<Element>) -> Element {
    choose|e: Element| is_least(m, e)
}

/// The expansion order is total: of two different elements exactly one precedes the other.
pub proof fn lemma_order_total(a: Element, b: Element)
    ensures
        a == b || a.precedes(b) || b.precedes(a),
        !(a.precedes(b) && b.precedes(a)),
        !a.precedes(a),
{
}

/// The expansion order is transitive.
pub proof fn lemma_order_transitive(a: Element, b: Element, c: Element)
    requires
        a.precedes(b),
        b.precedes(c),
    ensures
        a.precedes(c),
{
}

/// A multiset has at most one least element, and `least` names it.
pub proof fn lemma_least_unique(m: Multiset<Element>, a: Element, b: Element)
    requires
        is_least(m, a),
        is_least(m, b),
    ensures
        a == b,
        least(m) == a,
{
    assert(a.no_later_than(b) && b.no_later_than(a));
    let c = least(m);
    assert(a.no_later_than(c) && c.no_later_than(a));
}

/// The position above `i` in the implicit binary tree.
pub open spec fn up(i: int) -> int {
    (i - 1) / 2
}

/// Every position holds an element that its parent position does not come after.
pub open spec fn heap_ordered(s: Seq<Element>) -> bool {
    forall|i: int| 0 < i < s.len() ==> (#[trigger] s[up(i)]).no_later_than(s[i])
}

/// `s` is ordered but for the element at `k`, which may precede the one above it.
spec fn ordered_but_above(s: Seq<Element>, k: int) -> bool {
    &&& forall|i: int| 0 < i < s.len() && i != k ==> (#[trigger] s[up(i)]).no_later_than(s[i])
    &&& forall|i: int|
        0 < i < s.len() && up(i) == k && k > 0 ==> s[up(k)].no_later_than(#[trigger] s[i])
}

/// `s` is ordered but for the element at `k`, which may come after those below it.
spec fn ordered_but_below(s: Seq<Element>, k: int) -> bool {
    &&& forall|i: int|
        0 < i < s.len() && up(i) != k ==> (#[trigger] s[up(i)]).no_later_than(s[i])
    &&& forall|i: int|
        0 < i < s.len() && up(i) == k && k > 0 ==> s[up(k)].no_later_than(#[trigger] s[i])
}

proof fn lemma_root_first(s: Seq<Element>, i: int)
    requires
        heap_ordered(s),
        0 <= i < s.len(),
    ensures
        s[0].no_later_than(s[i]),
    decreases i,
{
    if i > 0 {
        lemma_root_first(s, up(i));
    }
}

proof fn lemma_root_is_least(s: Seq<Element>)
    requires
        heap_ordered(s),
        s.len() > 0,
    ensures
        is_least(s.to_multiset(), s[0]),
{
    broadcast use group_to_multiset_ensures;

    assert forall|x: Element| s.to_multiset().count(x) > 0 implies s[0].no_later_than(x) by {
        let i = choose|i: int| 0 <= i < s.len() && s[i] == x;
        lemma_root_first(s, i);
    }
}

/// A binary min-heap of elements.
pub struct OpenList {
    heap: Vec<Element>,
}

impl View for OpenList {
    type V = Multiset<Element>;

    /// The elements that wait in the queue.
    closed spec fn view(&self) -> Multiset<Element> {
        self.heap@.to_multiset()
    }
}

impl OpenList {
    /// The heap order holds between every position and the one above it.
    pub closed spec fn wf(&self) -> bool {
        heap_ordered(self.heap@)
    }

    /// An empty queue.
    pub fn new() -> (r: OpenList)
        ensures
            r.wf(),
            r@ == Multiset::<Element>::empty(),
    {
        let r = OpenList { heap: Vec::new() };
        proof {
            broadcast use group_to_multiset_ensures;

        }
        r
    }

    /// The number of queued elements.
    pub fn len(&self) -> (n: usize)
        ensures
            n == self@.len(),
    {
        proof {
            broadcast use group_to_multiset_ensures;

        }
        self.heap.len()
    }

    /// Whether nothing is queued.
    pub fn is_empty(&self) -> (r: bool)
        ensures
            r == (self@.len() == 0),
    {
        proof {
            broadcast use group_to_multiset_ensures;

        }
        self.heap.len() == 0
    }

    /// Queues `e`.
    pub fn push(&mut self, e: Element)
        requires
            old(self).wf(),
        ensures
            final(self).wf(),
            final(self)@ == old(self)@.insert(e),
    {
        broadcast use group_to_multiset_ensures;

        self.heap.push(e);
        let mut k: usize = self.heap.len() - 1;
        while k > 0 && self.heap[k].comes_before(&self.heap[(k - 1) / 2])
            invariant
                k < self.heap.len(),
                self.heap@.to_multiset() == old(self).heap@.to_multiset().insert(e),
                ordered_but_above(self.heap@, k as int),
            decreases k,
        {
            let p: usize = (k - 1) / 2;
            let child = self.heap[k];
            let parent = self.heap[p];
            let ghost before = self.heap@;
            self.heap.set(k, parent);
            self.heap.set(p, child);
            proof {
                lemma_swap_keeps_elements(before, k as int, p as int);
                lemma_swap_up(before, self.heap@, k as int);
            }
            k = p;
        }
    }

    /// Takes out the element that is expanded first, if there is one.
    pub fn pop(&mut self) -> (r: Option<Element>)
        requires
            old(self).wf(),
        ensures
            final(self).wf(),
            match r {
                None => old(self)@.len() == 0 && final(self)@ == old(self)@,
                Some(e) => is_least(old(self)@, e) && final(self)@ == old(self)@.remove(e),
            },
    {
        broadcast use group_to_multiset_ensures;

        let n: usize = self.heap.len();
        if n == 0 {
            return None;
        }
        let top = self.heap[0];
        proof {
            lemma_root_is_least(self.heap@);
        }
        let last = self.heap.pop().unwrap();
        let ghost rest = self.heap@;
        assert(old(self).heap@ == rest.push(last));
        if n == 1 {
            return Some(top);
        }
        self.heap.set(0, last);
        let len: usize = n - 1;
        let mut k: usize = 0;
        loop
            invariant_except_break
                ordered_but_below(self.heap@, k as int),
            invariant
                k < len,
                len == self.heap.len(),
                self.heap@.to_multiset() == old(self).heap@.to_multiset().remove(top),
            ensures
                heap_ordered(self.heap@),
            decreases len - k,
        {
            if k >= len / 2 {
                proof {
                    lemma_settled_leaf(self.heap@, k as int);
                }
                break ;
            }
            let left: usize = 2 * k + 1;
            let right: usize = left + 1;
            let mut m: usize = left;
            if right < len && self.heap[right].comes_before(&self.heap[left]) {
                m = right;
            }
            let child = self.heap[m];
            let parent = self.heap[k];
            if !child.comes_before(&parent) {
                proof {
                    lemma_settled_inner(self.heap@, k as int, m as int);
                }
                break ;
            }
            let ghost before = self.heap@;
            self.heap.set(k, child);
            self.heap.set(m, parent);
            proof {
                lemma_swap_keeps_elements(before, k as int, m as int);
                lemma_swap_down(before, self.heap@, k as int, m as int);
            }
            k = m;
        }
        Some(top)
    }
}

/// `s` with the elements at `i` and `j` exchanged.
spec fn swapped(s: Seq<Element>, i: int, j: int) -> Seq<Element> {
    s.update(i, s[j]).update(j, s[i])
}

proof fn lemma_swap_keeps_elements(s: Seq<Element>, i: int, j: int)
    requires
        0 <= i < s.len(),
        0 <= j < s.len(),
    ensures
        swapped(s, i, j).to_multiset() == s.to_multiset(),
{
    broadcast use group_to_multiset_ensures;

}

proof fn lemma_swap_up(s: Seq<Element>, t: Seq<Element>, k: int)
    requires
        0 < k < s.len(),
        ordered_but_above(s, k),
        s[k].precedes(s[up(k)]),
        t == swapped(s, k, up(k)),
    ensures
        ordered_but_above(t, up(k)),
{
}

proof fn lemma_swap_down(s: Seq<Element>, t: Seq<Element>, k: int, m: int)
    requires
        0 <= k < s.len(),
        0 < m < s.len(),
        up(m) == k,
        ordered_but_below(s, k),
        s[m].precedes(s[k]),
        forall|i: int| 0 < i < s.len() && up(i) == k ==> s[m].no_later_than(#[trigger] s[i]),
        t == swapped(s, k, m),
    ensures
        ordered_but_below(t, m),
{
}

proof fn lemma_settled_leaf(s: Seq<Element>, k: int)
    requires
        0 <= k < s.len(),
        k >= s.len() / 2,
        ordered_but_below(s, k),
    ensures
        heap_ordered(s),
{
}

proof fn lemma_settled_inner(s: Seq<Element>, k: int, m: int)
    requires
        0 <= k < s.len(),
        ordered_but_below(s, k),
        0 < m < s.len(),
        up(m) == k,
        !s[m].precedes(s[k]),
        forall|i: int| 0 < i < s.len() && up(i) == k ==> s[m].no_later_than(#[trigger] s[i]),
    ensures
        heap_ordered(s),
{
}

} // verus!
