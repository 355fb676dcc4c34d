use vstd::prelude::*;
use vstd::std_specs::cmp::PartialEqSpec;

verus! {

/// Where `insert_at` places a new element.
#[derive(Debug, Clone, Copy, PartialEq, Eq, Structural)]
pub enum InsertionPos {
    Start,
    End,
}

/// Why `insert_at_idx` refused to insert.
#[derive(Debug, Clone, Copy, PartialEq, Eq, Structural)]
pub enum InsertionError {
    /// The index is not the position of an element of the list.
    IndexOutOfBounds { wrong_index: usize, actual_elements: usize },
    /// The list has no element to insert before.
    EmptyList,
}

/// A doubly linked list.
///
/// Nodes are kept in an arena of parallel vectors: slot `k` holds the element
/// `items[k]` and the links `lefts[k]` / `rights[k]` to the slots of its
/// neighbours.  The arena is always dense (it has exactly `len` slots), and
/// the ghost sequence `order` lists the slots from the start of the list to its
/// end; `rank` is its inverse.
pub struct DoublyLinkedList<T> {
    items: Vec<T>,
    lefts: Vec<Option<usize>>,
    rights: Vec<Option<usize>>,
    start: Option<usize>,
    end: Option<usize>,
    len: usize,
    order: Ghost<Seq<usize>>,
    rank: Ghost<Seq<int>>,
}

/// The node at position `i` of `order` sits in a slot below `m`, and its links
/// point at the slots of its neighbours in `order`.
spec fn link_ok(
    order: Seq<usize>,
    lefts: Seq<Option<usize>>,
    rights: Seq<Option<usize>>,
    m: nat,
    i: int,
) -> bool {
    let k = order[i] as int;
    &&& k < m
    &&& lefts[k] == (if i == 0 { None } else { Some(order[i - 1]) })
    &&& rights[k] == (if i == order.len() - 1 { None } else { Some(order[i + 1]) })
}

/// `order` is a chain of distinct slots below `m`, linked both ways, that
/// starts at `start` and ends at `end`.
spec fn linked(
    order: Seq<usize>,
    lefts: Seq<Option<usize>>,
    rights: Seq<Option<usize>>,
    start: Option<usize>,
    end: Option<usize>,
    m: nat,
) -> bool {
    &&& lefts.len() == m
    &&& rights.len() == m
    &&& forall|i: int| 0 <= i < order.len() ==> #[trigger] link_ok(order, lefts, rights, m, i)
    &&& forall|i: int, j: int| 0 <= i < j < order.len() ==> order[i] != order[j]
    &&& start == (if order.len() == 0 { None } else { Some(order[0]) })
    &&& end == (if order.len() == 0 { None } else { Some(order[order.len() - 1]) })
}

/// Unlinking the node at position `p` (its neighbours point past it) leaves a
/// chain without it, in the same arena.
#[verifier::rlimit(40)]
proof fn lemma_unlink(
    order: Seq<usize>,
    lefts: Seq<Option<usize>>,
    rights: Seq<Option<usize>>,
    start: Option<usize>,
    end: Option<usize>,
    m: nat,
    p: int,
)
    requires
        linked(order, lefts, rights, start, end, m),
        0 <= p < order.len(),
    ensures
        ({
            let k = order[p] as int;
            let l = lefts[k];
            let r = rights[k];
            let lefts1 = match r { Some(b) => lefts.update(b as int, l), None => lefts };
            let rights1 = match l { Some(a) => rights.update(a as int, r), None => rights };
            let start1 = match l { Some(_) => start, None => r };
            let end1 = match r { Some(_) => end, None => l };
            linked(order.remove(p), lefts1, rights1, start1, end1, m)
        }),
{
    let k = order[p] as int;
    let l = lefts[k];
    let r = rights[k];
    let lefts1 = match r { Some(b) => lefts.update(b as int, l), None => lefts };
    let rights1 = match l { Some(a) => rights.update(a as int, r), None => rights };
    let o = order.remove(p);
    assert(link_ok(order, lefts, rights, m, p));
    if p > 0 {
        assert(link_ok(order, lefts, rights, m, p - 1));
    }
    if p < order.len() - 1 {
        assert(link_ok(order, lefts, rights, m, p + 1));
    }
    assert forall|i: int| 0 <= i < o.len() implies #[trigger] link_ok(o, lefts1, rights1, m, i) by {
        let oi = if i < p { i } else { i + 1 };
        assert(o[i] == order[oi]);
        assert(link_ok(order, lefts, rights, m, oi));
        if oi > 0 {
            assert(link_ok(order, lefts, rights, m, oi - 1));
        }
        if oi < order.len() - 1 {
            assert(link_ok(order, lefts, rights, m, oi + 1));
        }
    }
    assert forall|i: int, j: int| 0 <= i < j < o.len() implies o[i] != o[j] by {
        let oi = if i < p { i } else { i + 1 };
        let oj = if j < p { j } else { j + 1 };
        assert(o[i] == order[oi] && o[j] == order[oj]);
    }
    if o.len() > 0 {
        assert(link_ok(order, lefts, rights, m, 0));
        assert(link_ok(order, lefts, rights, m, order.len() - 1));
    }
}

/// Renames slot `from` to slot `to`.
spec fn rename_slot(x: usize, from: usize, to: usize) -> usize {
    if x == from { to } else { x }
}

/// Moving the node in the last slot `n - 1` of the arena into the free slot
/// `k` (as `swap_remove` does) and redirecting its neighbours' links keeps the
/// chain, with `n - 1` renamed to `k`, in an arena one slot shorter.
proof fn lemma_relocate(
    order: Seq<usize>,
    lefts: Seq<Option<usize>>,
    rights: Seq<Option<usize>>,
    start: Option<usize>,
    end: Option<usize>,
    n: nat,
    k: usize,
    q: int,
)
    requires
        linked(order, lefts, rights, start, end, n),
        order.len() == n - 1,
        k < n - 1,
        forall|i: int| 0 <= i < order.len() ==> order[i] != k,
        0 <= q < order.len(),
        order[q] == n - 1,
    ensures
        ({
            let last = (n - 1) as usize;
            let lefts1 = lefts.update(k as int, lefts[last as int]).drop_last();
            let rights1 = rights.update(k as int, rights[last as int]).drop_last();
            let a = lefts1[k as int];
            let rights2 = match a { Some(a) => rights1.update(a as int, Some(k)), None => rights1 };
            let start2 = match a { Some(_) => start, None => Some(k) };
            let b = rights2[k as int];
            let lefts2 = match b { Some(b) => lefts1.update(b as int, Some(k)), None => lefts1 };
            let end2 = match b { Some(_) => end, None => Some(k) };
            linked(
                order.map_values(|x: usize| rename_slot(x, last, k)),
                lefts2,
                rights2,
                start2,
                end2,
                (n - 1) as nat,
            )
        }),
{
    let last = (n - 1) as usize;
    let lefts1 = lefts.update(k as int, lefts[last as int]).drop_last();
    let rights1 = rights.update(k as int, rights[last as int]).drop_last();
    let a = lefts1[k as int];
    let rights2 = match a { Some(a) => rights1.update(a as int, Some(k)), None => rights1 };
    let b = rights2[k as int];
    let lefts2 = match b { Some(b) => lefts1.update(b as int, Some(k)), None => lefts1 };
    let o = order.map_values(|x: usize| rename_slot(x, last, k));
    let m = (n - 1) as nat;
    assert(link_ok(order, lefts, rights, n, q));
    if q > 0 {
        assert(link_ok(order, lefts, rights, n, q - 1));
    }
    if q < order.len() - 1 {
        assert(link_ok(order, lefts, rights, n, q + 1));
    }
    assert forall|i: int| 0 <= i < o.len() implies #[trigger] link_ok(o, lefts2, rights2, m, i) by {
        assert(link_ok(order, lefts, rights, n, i));
        if i > 0 {
            assert(link_ok(order, lefts, rights, n, i - 1));
        }
        if i < order.len() - 1 {
            assert(link_ok(order, lefts, rights, n, i + 1));
        }
    }
    assert forall|i: int, j: int| 0 <= i < j < o.len() implies o[i] != o[j] by {
        assert(order[i] != order[j]);
    }
    if o.len() > 0 {
        assert(link_ok(order, lefts, rights, n, 0));
        assert(link_ok(order, lefts, rights, n, order.len() - 1));
    }
}

/// Dropping the last slot of the arena, which the chain does not use, keeps
/// the chain.
proof fn lemma_drop_last_slot(
    order: Seq<usize>,
    lefts: Seq<Option<usize>>,
    rights: Seq<Option<usize>>,
    start: Option<usize>,
    end: Option<usize>,
    n: nat,
)
    requires
        linked(order, lefts, rights, start, end, n),
        n > 0,
        forall|i: int| 0 <= i < order.len() ==> order[i] != n - 1,
    ensures
        ({
            let last = n - 1;
            linked(
                order,
                lefts.update(last, lefts[last]).drop_last(),
                rights.update(last, rights[last]).drop_last(),
                start,
                end,
                (n - 1) as nat,
            )
        }),
{
    let last = n - 1;
    let lefts1 = lefts.update(last, lefts[last]).drop_last();
    let rights1 = rights.update(last, rights[last]).drop_last();
    assert forall|i: int| 0 <= i < order.len() implies #[trigger] link_ok(order, lefts1, rights1, (n - 1) as nat, i) by {
        assert(link_ok(order, lefts, rights, n, i));
    }
}

impl<T> View for DoublyLinkedList<T> {
    type V = Seq<T>;

    /// The elements of the list, from its start to its end.
    closed spec fn view(&self) -> Seq<T> {
        Seq::new(self.len as nat, |i: int| self.items@[self.order@[i] as int])
    }
}

impl<T> DoublyLinkedList<T> {
    /// The slot that holds the `i`-th element is in the arena, its links agree
    /// with the order of the list, and `rank` maps it back to `i`.
    closed spec fn node_wf(&self, i: int) -> bool {
        &&& link_ok(self.order@, self.lefts@, self.rights@, self.len as nat, i)
        &&& self.rank@[self.order@[i] as int] == i
    }

    /// Well-formedness: the arena is dense, `order` is a permutation of its
    /// slots with inverse `rank`, and every link follows `order`.
    pub closed spec fn wf(&self) -> bool {
        &&& self.items@.len() == self.len
        &&& self.lefts@.len() == self.len
        &&& self.rights@.len() == self.len
        &&& self.order@.len() == self.len
        &&& self.rank@.len() == self.len
        &&& forall|i: int| 0 <= i < self.len ==> #[trigger] link_ok(
            self.order@,
            self.lefts@,
            self.rights@,
            self.len as nat,
            i,
        )
        &&& forall|i: int| 0 <= i < self.len ==> self.rank@[#[trigger] self.order@[i] as int] == i
        &&& forall|k: int| 0 <= k < self.len ==> 0 <= #[trigger] self.rank@[k] < self.len
            && self.order@[self.rank@[k]] == k
        &&& self.start == (if self.len == 0 { None } else { Some(self.order@[0]) })
        &&& self.end == (if self.len == 0 { None } else { Some(self.order@[self.len - 1]) })
    }

    /// Creates an empty list.
    pub fn new() -> (list: Self)
        ensures
            list.wf(),
            list@ == Seq::<T>::empty(),
    {
        let list = DoublyLinkedList {
            items: Vec::new(),
            lefts: Vec::new(),
            rights: Vec::new(),
            start: None,
            end: None,
            len: 0,
            order: Ghost(Seq::empty()),
            rank: Ghost(Seq::empty()),
        };
        assert(list@ =~= Seq::<T>::empty());
        list
    }

    /// The number of elements in the list.
    pub fn len(&self) -> (n: usize)
        requires
            self.wf(),
        ensures
            n == self@.len(),
    {
        self.len
    }

    /// Whether the list holds no element.
    pub fn is_empty(&self) -> (b: bool)
        requires
            self.wf(),
        ensures
            b == (self@.len() == 0),
    {
        self.len == 0
    }

    /// Makes `new` the only element of an empty list.
    fn init_single_elem(&mut self, new: T)
        requires
            old(self).wf(),
            old(self)@.len() == 0,
        ensures
            final(self).wf(),
            final(self)@ == seq![new],
    {
        self.items.push(new);
        self.lefts.push(None);
        self.rights.push(None);
        self.start = Some(0);
        self.end = Some(0);
        self.len = 1;
        proof {
            self.order@ = seq![0usize];
            self.rank@ = seq![0int];
        }
        assert(self.node_wf(0));
        assert(self@ =~= seq![new]);
    }

    /// A list whose lengths agree, whose every position is a well-formed node,
    /// whose `rank` inverts `order` and whose ends are those of `order` is
    /// well-formed.
    proof fn lemma_wf_intro(&self)
        requires
            self.items@.len() == self.len,
            self.lefts@.len() == self.len,
            self.rights@.len() == self.len,
            self.order@.len() == self.len,
            self.rank@.len() == self.len,
            forall|i: int| 0 <= i < self.len ==> #[trigger] self.node_wf(i),
            forall|k: int| 0 <= k < self.len ==> 0 <= #[trigger] self.rank@[k] < self.len
                && self.order@[self.rank@[k]] == k,
            self.start == (if self.len == 0 { None } else { Some(self.order@[0]) }),
            self.end == (if self.len == 0 { None } else { Some(self.order@[self.len - 1]) }),
        ensures
            self.wf(),
    {
        assert forall|i: int| 0 <= i < self.len implies self.rank@[#[trigger] self.order@[i] as int] == i by {
            assert(self.node_wf(i));
        }
        assert forall|i: int| 0 <= i < self.len implies #[trigger] link_ok(
            self.order@,
            self.lefts@,
            self.rights@,
            self.len as nat,
            i,
        ) by {
            assert(self.node_wf(i));
        }
    }

    /// A well-formed list is a chain of distinct slots over its arena.
    proof fn lemma_wf_linked(&self)
        requires
            self.wf(),
        ensures
            linked(self.order@, self.lefts@, self.rights@, self.start, self.end, self.len as nat),
    {
        assert forall|i: int| 0 <= i < self.len implies #[trigger] link_ok(
            self.order@,
            self.lefts@,
            self.rights@,
            self.len as nat,
            i,
        ) by {
            assert(self.node_wf(i));
        }
        assert forall|i: int, j: int| 0 <= i < j < self.len implies self.order@[i] != self.order@[j] by {
            assert(self.node_wf(i));
            assert(self.node_wf(j));
        }
        if self.len > 0 {
            assert(self.node_wf(0));
        }
    }

    /// The facts that `unlink_slot` establishes about its result make it a
    /// well-formed list without the element at position `p`.
    proof fn lemma_removed(before: Self, after: Self, p: int, k: usize)
        requires
            before.wf(),
            0 <= p < before.len,
            before.order@[p] == k,
            after.len == before.len - 1,
            after.items@ == before.items@.update(k as int, before.items@[before.len - 1]).drop_last(),
            after.order@ == (if k < before.len - 1 {
                before.order@.remove(p).map_values(
                    |y: usize| rename_slot(y, (before.len - 1) as usize, k),
                )
            } else {
                before.order@.remove(p)
            }),
            after.rank@ == Seq::new(after.len as nat, |j: int| {
                let r = if j == k { before.rank@[before.len - 1] } else { before.rank@[j] };
                if r > p { r - 1 } else { r }
            }),
            linked(after.order@, after.lefts@, after.rights@, after.start, after.end, after.len as nat),
        ensures
            after.wf(),
            after@ == before@.remove(p),
    {
        let n = before.len as int;
        let last = (n - 1) as usize;
        let o = after.order@;
        let rk = before.rank@;
        assert(before.node_wf(p));
        assert forall|i: int| 0 <= i < n - 1 implies #[trigger] after.node_wf(i) by {
            let oi = if i < p { i } else { i + 1 };
            assert(before.node_wf(oi));
            assert(link_ok(o, after.lefts@, after.rights@, (n - 1) as nat, i));
        }
        assert forall|j: int| 0 <= j < n - 1 implies 0 <= #[trigger] after.rank@[j] < n - 1
            && after.order@[after.rank@[j]] == j by {
            let oj = if j == k { last as int } else { j };
            assert(0 <= rk[oj] < n);
            assert(before.node_wf(rk[oj]));
        }
        after.lemma_wf_intro();
        assert(after@ =~= before@.remove(p)) by {
            assert forall|i: int| 0 <= i < n - 1 implies after@[i] == before@.remove(p)[i] by {
                let oi = if i < p { i } else { i + 1 };
                assert(before.node_wf(oi));
            }
        }
    }

    /// Removes the element in slot `k`, at position `p` of the list, and
    /// returns it.  The last slot of the arena moves into the freed slot, and
    /// the links that pointed at it are redirected.
    fn unlink_slot(&mut self, k: usize, Ghost(p): Ghost<int>) -> (x: T)
        requires
            old(self).wf(),
            0 <= p < old(self)@.len(),
            old(self).order@[p] == k,
        ensures
            final(self).wf(),
            x == old(self)@[p],
            final(self)@ == old(self)@.remove(p),
    {
        let ghost ord = self.order@;
        let ghost rk = self.rank@;
        let ghost n = self.len as nat;
        let ghost last = (self.len - 1) as usize;
        let ghost o2 = ord.remove(p);
        proof {
            self.lemma_wf_linked();
            lemma_unlink(ord, self.lefts@, self.rights@, self.start, self.end, n, p);
            assert(self.node_wf(p));
            if p > 0 {
                assert(self.node_wf(p - 1));
            }
            if p < n - 1 {
                assert(self.node_wf(p + 1));
            }
        }
        let l = self.lefts[k];
        let r = self.rights[k];
        match l {
            Some(a) => self.rights.set(a, r),
            None => self.start = r,
        }
        match r {
            Some(b) => self.lefts.set(b, l),
            None => self.end = l,
        }
        let ghost lefts1 = self.lefts@;
        let ghost rights1 = self.rights@;
        let ghost start1 = self.start;
        let ghost end1 = self.end;
        assert(linked(o2, lefts1, rights1, start1, end1, n));
        let ghost q = rk[last as int];
        proof {
            assert(old(self).node_wf(q));
            assert forall|i: int| 0 <= i < o2.len() implies o2[i] != k by {
                let oi = if i < p { i } else { i + 1 };
                assert(old(self).node_wf(oi));
            }
        }
        let x = self.items.swap_remove(k);
        self.lefts.swap_remove(k);
        self.rights.swap_remove(k);
        self.len = self.len - 1;
        if k < self.len {
            let ghost q2 = if q < p { q } else { q - 1 };
            proof {
                assert(o2[q2] == last);
                assert(link_ok(o2, lefts1, rights1, n, q2));
                if q2 > 0 {
                    assert(link_ok(o2, lefts1, rights1, n, q2 - 1));
                    assert(o2[q2 - 1] != o2[q2]);
                }
                if q2 < o2.len() - 1 {
                    assert(link_ok(o2, lefts1, rights1, n, q2 + 1));
                    assert(o2[q2] != o2[q2 + 1]);
                }
                lemma_relocate(o2, lefts1, rights1, start1, end1, n, k, q2);
            }
            // the node that sat in the last slot now sits in slot `k`
            match self.lefts[k] {
                Some(a) => self.rights.set(a, Some(k)),
                None => self.start = Some(k),
            }
            match self.rights[k] {
                Some(b) => self.lefts.set(b, Some(k)),
                None => self.end = Some(k),
            }
            proof {
                self.order@ = o2.map_values(|y: usize| rename_slot(y, last, k));
            }
        } else {
            proof {
                lemma_drop_last_slot(o2, lefts1, rights1, start1, end1, n);
                self.order@ = o2;
            }
        }
        proof {
            self.rank@ = Seq::new((n - 1) as nat, |j: int| {
                let r = if j == k { rk[last as int] } else { rk[j] };
                if r > p { r - 1 } else { r }
            });
            Self::lemma_removed(*old(self), *self, p, k);
        }
        x
    }

    /// Inserts `other` before the element at position `idx`, so that it ends
    /// up at position `idx`.  An empty list, or an index that is not the
    /// position of an element, is refused and the list is left unchanged.
    pub fn insert_at_idx(&mut self, other: T, idx: usize) -> (res: Result<(), InsertionError>)
        requires
            old(self).wf(),
            old(self)@.len() < usize::MAX,
        ensures
            final(self).wf(),
            match res {
                Ok(()) => 0 < old(self)@.len() && idx < old(self)@.len()
                    && final(self)@ == old(self)@.insert(idx as int, other),
                Err(InsertionError::EmptyList) => old(self)@.len() == 0 && final(self)@ == old(self)@,
                Err(InsertionError::IndexOutOfBounds { wrong_index, actual_elements }) =>
                    0 < old(self)@.len() && old(self)@.len() <= idx && wrong_index == idx
                    && actual_elements == old(self)@.len() && final(self)@ == old(self)@,
            },
    {
        if self.len == 0 {
            return Err(InsertionError::EmptyList);
        }
        if idx >= self.len {
            return Err(InsertionError::IndexOutOfBounds { wrong_index: idx, actual_elements: self.len });
        }
        // walk to the node at position `idx`
        let mut cur = self.start.unwrap();
        let mut i: usize = 0;
        assert(self.node_wf(0));
        while i < idx
            invariant
                self.wf(),
                i <= idx < self.len,
                cur == self.order@[i as int],
            decreases idx - i,
        {
            assert(self.node_wf(i as int));
            cur = self.rights[cur].unwrap();
            i = i + 1;
        }
        let n = self.len;
        let ghost ord = self.order@;
        let ghost rk = self.rank@;
        proof {
            assert(self.node_wf(idx as int));
            if idx > 0 {
                assert(self.node_wf(idx - 1));
            }
        }
        let left = self.lefts[cur];
        self.items.push(other);
        self.lefts.push(left);
        self.rights.push(Some(cur));
        match left {
            Some(a) => self.rights.set(a, Some(n)),
            None => self.start = Some(n),
        }
        self.lefts.set(cur, Some(n));
        self.len = n + 1;
        proof {
            self.order@ = ord.insert(idx as int, n);
            self.rank@ = rk.map_values(|r: int| if r >= idx { r + 1 } else { r }).push(idx as int);
            assert forall|j: int| 0 <= j < self.len implies #[trigger] self.node_wf(j) by {
                let oj = if j < idx { j } else { j - 1 };
                if j != idx {
                    assert(old(self).node_wf(oj));
                }
                if oj > 0 {
                    assert(old(self).node_wf(oj - 1));
                }
                if oj < n - 1 {
                    assert(old(self).node_wf(oj + 1));
                }
            }
            assert forall|k: int| 0 <= k < self.len implies 0 <= #[trigger] self.rank@[k] < self.len
                && self.order@[self.rank@[k]] == k by {
                if k < n {
                    assert(old(self).node_wf(rk[k]));
                }
            }
            assert(old(self).node_wf(n - 1));
            self.lemma_wf_intro();
            assert(self@ =~= old(self)@.insert(idx as int, other)) by {
                assert forall|j: int| 0 <= j < self.len && j != idx implies self@[j]
                    == old(self)@.insert(idx as int, other)[j] by {
                    let oj = if j < idx { j } else { j - 1 };
                    assert(old(self).node_wf(oj));
                }
            }
        }
        Ok(())
    }

    /// Replacing the element in the slot of position `p` replaces the element
    /// at position `p` of the list.
    proof fn lemma_view_update(before: Self, after: Self, p: int, x: T)
        requires
            before.wf(),
            0 <= p < before.len,
            after.len == before.len,
            after.order == before.order,
            after.items@ == before.items@.update(before.order@[p] as int, x),
        ensures
            after@ == before@.update(p, x),
    {
        assert(before.node_wf(p));
        assert forall|i: int| 0 <= i < before.len implies after@[i] == before@.update(p, x)[i] by {
            assert(before.node_wf(i));
        }
        assert(after@ =~= before@.update(p, x));
    }

    /// The element at position `p`, which sits in slot `k`, for change in
    /// place.
    fn slot_mut(&mut self, k: usize, Ghost(p): Ghost<int>) -> (r: &mut T)
        requires
            old(self).wf(),
            0 <= p < old(self)@.len(),
            old(self).order@[p] == k,
        ensures
            *r == old(self)@[p],
            final(self).wf(),
            final(self).items@ == old(self).items@.update(k as int, *final(r)),
            final(self).order == old(self).order,
            final(self).len == old(self).len,
    {
        proof {
            assert(self.node_wf(p));
            assert forall|i: int| 0 <= i < self.len && i != p implies #[trigger] self.order@[i] != k by {
                assert(self.node_wf(i));
            }
        }
        &mut self.items[k]
    }

    /// A shared iterator over the elements, from the start to the end.
    pub fn iter(&self) -> (it: Iter<'_, T>)
        requires
            self.wf(),
        ensures
            it.wf(),
            it.seq() == self@,
            it.pos() == 0,
    {
        Iter { list: self, next_slot: self.start, pos: Ghost(0) }
    }

    /// An iterator that takes the elements out of the list, from the start to
    /// the end.
    pub fn into_iter(self) -> (it: IntoIter<T>)
        requires
            self.wf(),
        ensures
            it.wf(),
            it.seq() == self@,
            !it.started(),
    {
        IntoIter { list: self, started: Ghost(false) }
    }

    /// Builds a list that holds the elements of `items`, in their order.
    pub fn from_iter(items: Vec<T>) -> (list: Self)
        ensures
            list.wf(),
            list@ == items@,
    {
        let n = items.len();
        let mut lefts: Vec<Option<usize>> = Vec::new();
        let mut rights: Vec<Option<usize>> = Vec::new();
        let mut i: usize = 0;
        while i < n
            invariant
                i <= n,
                lefts@.len() == i,
                rights@.len() == i,
                forall|j: int| 0 <= j < i ==> #[trigger] lefts@[j] == (if j == 0 { None } else { Some((j - 1) as usize) }),
                forall|j: int| 0 <= j < i ==> #[trigger] rights@[j] == (if j == n - 1 { None } else { Some((j + 1) as usize) }),
            decreases n - i,
        {
            lefts.push(if i == 0 { None } else { Some(i - 1) });
            rights.push(if i + 1 == n { None } else { Some(i + 1) });
            i = i + 1;
        }
        let list = DoublyLinkedList {
            items,
            lefts,
            rights,
            start: if n == 0 { None } else { Some(0) },
            end: if n == 0 { None } else { Some(n - 1) },
            len: n,
            order: Ghost(Seq::new(n as nat, |j: int| j as usize)),
            rank: Ghost(Seq::new(n as nat, |j: int| j)),
        };
        proof {
            assert forall|j: int| 0 <= j < n implies #[trigger] list.node_wf(j) by {}
            list.lemma_wf_intro();
        }
        assert(list@ =~= items@);
        list
    }

    /// An exclusive iterator over the elements, from the start to the end.
    pub fn iter_mut(&mut self) -> (it: IterMut<'_, T>)
        requires
            old(self).wf(),
        ensures
            it.wf(),
            it.seq() == old(self)@,
            it.pos() == 0,
            *final(it.borrowed()) == *final(self),
    {
        let start = self.start;
        IterMut { list: self, next_slot: start, pos: Ghost(0) }
    }

    /// Inserts `other` at the start or at the end of the list.
    pub fn insert_at(&mut self, other: T, pos: InsertionPos)
        requires
            old(self).wf(),
            old(self)@.len() < usize::MAX,
        ensures
            final(self).wf(),
            final(self)@ == (match pos {
                InsertionPos::Start => seq![other] + old(self)@,
                InsertionPos::End => old(self)@.push(other),
            }),
    {
        if self.len == 0 {
            self.init_single_elem(other);
            assert(seq![other] + old(self)@ =~= seq![other]);
            assert(old(self)@.push(other) =~= seq![other]);
            return;
        }
        let n = self.len;
        let ghost old_order = self.order@;
        let ghost old_rank = self.rank@;
        match pos {
            InsertionPos::Start => {
                let first = self.start.unwrap();
                assert(self.node_wf(0));
                self.items.push(other);
                self.lefts.push(None);
                self.rights.push(Some(first));
                self.lefts.set(first, Some(n));
                self.start = Some(n);
                self.len = n + 1;
                proof {
                    self.order@ = seq![n] + old_order;
                    self.rank@ = old_rank.map_values(|r: int| r + 1).push(0int);
                }
                assert forall|i: int| 0 <= i < self.len implies #[trigger] self.node_wf(i) by {
                    if i > 0 {
                        assert(old(self).node_wf(i - 1));
                    }
                }
                proof {
                    self.lemma_wf_intro();
                }
                assert(self@ =~= seq![other] + old(self)@) by {
                    assert forall|i: int| 1 <= i < self.len implies self@[i] == old(self)@[i - 1] by {
                        assert(old(self).node_wf(i - 1));
                    }
                }
            },
            InsertionPos::End => {
                let last = self.end.unwrap();
                assert(self.node_wf(n - 1));
                self.items.push(other);
                self.lefts.push(Some(last));
                self.rights.push(None);
                self.rights.set(last, Some(n));
                self.end = Some(n);
                self.len = n + 1;
                proof {
                    self.order@ = old_order.push(n);
                    self.rank@ = old_rank.push(n as int);
                }
                assert forall|i: int| 0 <= i < self.len implies #[trigger] self.node_wf(i) by {
                    if i < n {
                        assert(old(self).node_wf(i));
                    }
                }
                proof {
                    self.lemma_wf_intro();
                }
                assert(self@ =~= old(self)@.push(other)) by {
                    assert forall|i: int| 0 <= i < n implies self@[i] == old(self)@[i] by {
                        assert(old(self).node_wf(i));
                    }
                }
            },
        }
    }
}

/// `s[i]` is the first element of `s` equal to `x`.
pub open spec fn is_first_match<T: PartialEq>(s: Seq<T>, x: T, i: int) -> bool {
    &&& 0 <= i < s.len()
    &&& s[i].eq_spec(&x)
    &&& forall|j: int| 0 <= j < i ==> !(#[trigger] s[j]).eq_spec(&x)
}

/// Some element of `s` is equal to `x`.
pub open spec fn has_match<T: PartialEq>(s: Seq<T>, x: T) -> bool {
    exists|i: int| 0 <= i < s.len() && (#[trigger] s[i]).eq_spec(&x)
}

impl<T: PartialEq> DoublyLinkedList<T> {
    /// Walks the links from the start and returns the slot of the first
    /// element equal to `other`, with its position in the list.
    fn find_ptr(&self, other: &T) -> (res: Option<(usize, Ghost<int>)>)
        requires
            self.wf(),
        ensures
            match res {
                Some((k, p)) => 0 <= p@ < self@.len() && self.order@[p@] == k
                    && (T::obeys_eq_spec() ==> is_first_match(self@, *other, p@)),
                None => T::obeys_eq_spec() ==> !has_match(self@, *other),
            },
    {
        let mut cur = self.start;
        let mut i: usize = 0;
        while i < self.len
            invariant
                self.wf(),
                i <= self.len,
                cur == (if i < self.len { Some(self.order@[i as int]) } else { None::<usize> }),
                T::obeys_eq_spec() ==> forall|j: int| 0 <= j < i ==> !(#[trigger] self@[j]).eq_spec(other),
            decreases self.len - i,
        {
            assert(self.node_wf(i as int));
            let k = cur.unwrap();
            if self.items[k] == *other {
                return Some((k, Ghost(i as int)));
            }
            cur = self.rights[k];
            i = i + 1;
        }
        None
    }

    /// Removes the first element equal to `other` and returns it, or returns
    /// `None` and leaves the list unchanged where there is none.
    pub fn delete(&mut self, other: &T) -> (res: Option<T>)
        requires
            old(self).wf(),
        ensures
            final(self).wf(),
            match res {
                None => final(self)@ == old(self)@,
                Some(x) => exists|i: int| 0 <= i < old(self)@.len() && x == old(self)@[i]
                    && final(self)@ == old(self)@.remove(i)
                    && (T::obeys_eq_spec() ==> is_first_match(old(self)@, *other, i)),
            },
            T::obeys_eq_spec() ==> (res is None <==> !has_match(old(self)@, *other)),
    {
        match self.find_ptr(other) {
            Some((k, p)) => Some(self.unlink_slot(k, p)),
            None => None,
        }
    }

    /// Returns a reference to the first element equal to `other`, which the
    /// caller knows to be in the list.
    pub fn get_unchecked(&self, other: &T) -> (res: &T)
        requires
            self.wf(),
            T::obeys_eq_spec(),
            has_match(self@, *other),
        ensures
            exists|i: int| is_first_match(self@, *other, i) && *res == self@[i],
    {
        let (k, p) = self.find_ptr(other).unwrap();
        assert(self.node_wf(p@));
        assert(self@[p@] == self.items@[k as int]);
        &self.items[k]
    }

    /// Returns a reference to the first element equal to `other`.
    pub fn get(&self, other: &T) -> (res: Option<&T>)
        requires
            self.wf(),
        ensures
            res matches Some(v) ==> exists|i: int| 0 <= i < self@.len() && *v == self@[i]
                && (T::obeys_eq_spec() ==> is_first_match(self@, *other, i)),
            T::obeys_eq_spec() ==> (res is None <==> !has_match(self@, *other)),
    {
        match self.find_ptr(other) {
            Some((k, p)) => {
                assert(self.node_wf(p@));
                assert(self@[p@] == self.items@[k as int]);
                Some(&self.items[k])
            },
            None => None,
        }
    }
}

impl<T: Clone> DoublyLinkedList<T> {
    /// A new list whose elements are clones of the elements of this one, in
    /// the same order.
    pub fn clone(&self) -> (list: Self)
        requires
            self.wf(),
        ensures
            list.wf(),
            list@.len() == self@.len(),
            forall|i: int| 0 <= i < self@.len() ==> cloned::<T>(self@[i], #[trigger] list@[i]),
    {
        let mut list = Self::new();
        let mut it = self.iter();
        let n = self.len;
        let mut i: usize = 0;
        while i < n
            invariant
                it.wf(),
                it.seq() == self@,
                it.pos() == i,
                n == self@.len(),
                i <= n,
                list.wf(),
                list@.len() == i,
                forall|j: int| 0 <= j < i ==> cloned::<T>(self@[j], #[trigger] list@[j]),
            decreases n - i,
        {
            let elem = it.next().unwrap();
            let c = elem.clone();
            list.insert_at(c, InsertionPos::End);
            i = i + 1;
        }
        list
    }

    /// Replaces the elements of this list by clones of the elements of
    /// `source`, in the same order.
    ///
    /// This is a deep copy that needs `T: Clone`: the two lists do not share
    /// their elements afterwards, and a write through one is not seen in the
    /// other.  A copy that shares the elements of `source` would need shared
    /// mutable nodes, which this arena of vectors does not have.
    pub fn clone_from(&mut self, source: &Self)
        requires
            source.wf(),
        ensures
            final(self).wf(),
            final(self)@.len() == source@.len(),
            forall|i: int| 0 <= i < source@.len() ==> cloned::<T>(source@[i], #[trigger] final(self)@[i]),
    {
        *self = source.clone();
    }
}

impl<T> Default for DoublyLinkedList<T> {
    /// An empty list.
    fn default() -> (list: Self)
        ensures
            list.wf(),
            list@ == Seq::<T>::empty(),
    {
        Self::new()
    }
}

/// `get` and `delete` search alike: a list has at most one first element
/// equal to `x`, so the element that `get` finds is the one that `delete`
/// removes.
pub proof fn law_first_match_unique<T: PartialEq>(s: Seq<T>, x: T, i: int, j: int)
    requires
        is_first_match(s, x, i),
        is_first_match(s, x, j),
    ensures
        i == j,
{
}

/// Deleting an element right after inserting it at the start of a list gives
/// it back and restores the list, wherever equality on `T` is reflexive on it.
pub proof fn law_delete_undoes_insert_at_start<T: PartialEq>(s: Seq<T>, x: T)
    requires
        x.eq_spec(&x),
    ensures
        is_first_match(seq![x] + s, x, 0),
        (seq![x] + s)[0] == x,
        (seq![x] + s).remove(0) == s,
{
    assert((seq![x] + s).remove(0) =~= s);
}

/// `delete` undoes `insert_at_idx`: after inserting `x` at position `i`,
/// where no element before position `i` is equal to `x` and equality on `T`
/// is reflexive on `x`, the first element equal to `x` is the inserted one,
/// and removing it restores the list.
pub proof fn law_delete_undoes_insert_at_idx<T: PartialEq>(s: Seq<T>, x: T, i: int)
    requires
        0 <= i < s.len(),
        x.eq_spec(&x),
        forall|j: int| 0 <= j < i ==> !(#[trigger] s[j]).eq_spec(&x),
    ensures
        is_first_match(s.insert(i, x), x, i),
        s.insert(i, x).remove(i) == s,
{
    assert(s.insert(i, x).remove(i) =~= s);
    assert forall|j: int| 0 <= j < i implies !(#[trigger] s.insert(i, x)[j]).eq_spec(&x) by {
        assert(s.insert(i, x)[j] == s[j]);
    }
}

/// One call of `Iter::next` on the elements `s` at position `pos`: the element
/// handed out, if any, and the position after the call.
pub open spec fn iter_step<T>(s: Seq<T>, pos: int) -> (Option<T>, int) {
    if 0 <= pos < s.len() {
        (Some(s[pos]), pos + 1)
    } else {
        (None, pos)
    }
}

/// What `k` calls of `Iter::next` hand out, starting at position `pos` of `s`.
pub open spec fn walk<T>(s: Seq<T>, pos: int, k: nat) -> Seq<Option<T>>
    decreases k,
{
    if k == 0 {
        Seq::empty()
    } else {
        let (x, next) = iter_step(s, pos);
        seq![x] + walk(s, next, (k - 1) as nat)
    }
}

/// Iterating a list hands out its elements from the start to the end, one per
/// call, and `None` on every call after the last element: the `j`-th of `k`
/// calls from position `pos` hands out `s[pos + j]` where there is one.  So
/// from the start exactly `s.len()` calls hand out an element, as many as
/// `len` counts.
pub proof fn law_walk<T>(s: Seq<T>, pos: int, k: nat)
    requires
        0 <= pos <= s.len(),
    ensures
        walk(s, pos, k) == Seq::new(k, |j: int| if pos + j < s.len() { Some(s[pos + j]) } else { None }),
        forall|j: int| 0 <= j < k ==> ((#[trigger] walk(s, pos, k)[j]) is Some <==> pos + j < s.len()),
    decreases k,
{
    if k > 0 {
        let next = iter_step(s, pos).1;
        law_walk(s, next, (k - 1) as nat);
        assert(walk(s, pos, k) =~= Seq::new(k, |j: int| if pos + j < s.len() { Some(s[pos + j]) } else { None }));
    }
}

/// One call of `IntoIter::next` on the remaining elements `s`: the element
/// taken out, if any, and the elements that remain.
pub open spec fn drain_step<T>(s: Seq<T>) -> (Option<T>, Seq<T>) {
    if s.len() == 0 {
        (None, s)
    } else {
        (Some(s[0]), s.drop_first())
    }
}

/// What `k` calls of `IntoIter::next` take out of the elements `s`.
pub open spec fn drain<T>(s: Seq<T>, k: nat) -> Seq<Option<T>>
    decreases k,
{
    if k == 0 {
        Seq::empty()
    } else {
        let (x, rest) = drain_step(s);
        seq![x] + drain(rest, (k - 1) as nat)
    }
}

/// `k` steps of taking out from `s` hand out `s[j]` for every `j < s.len()`
/// and `None` after.
proof fn law_drain_rest<T>(s: Seq<T>, k: nat)
    ensures
        drain(s, k) == Seq::new(k, |j: int| if j < s.len() { Some(s[j]) } else { None }),
    decreases k,
{
    if k > 0 {
        let rest = drain_step(s).1;
        law_drain_rest(rest, (k - 1) as nat);
        assert(drain(s, k) =~= Seq::new(k, |j: int| if j < s.len() { Some(s[j]) } else { None }));
    }
}

/// Taking the elements out of a list hands them out from the start to the
/// end, one per call, and `None` on every call after the last element.  A
/// list of exactly one element is left out: the first call on it is refused.
pub proof fn law_drain<T>(s: Seq<T>, k: nat)
    requires
        s.len() != 1,
    ensures
        drain(s, k) == Seq::new(k, |j: int| if j < s.len() { Some(s[j]) } else { None }),
{
    law_drain_rest(s, k);
}

/// The elements `s` after the first `k` of them were overwritten, in order,
/// by the first `k` of `ws`, one write per call of `IterMut::next`.
pub open spec fn written<T>(s: Seq<T>, ws: Seq<T>, k: nat) -> Seq<T>
    decreases k,
{
    if k == 0 {
        s
    } else {
        written(s, ws, (k - 1) as nat).update(k - 1, ws[k - 1])
    }
}

/// Writing through each element that exclusive iteration hands out leaves the
/// list holding what was written: after `k` of the elements were overwritten
/// by `ws`, the list holds the first `k` of `ws` followed by the rest of `s`,
/// so after every element was, it holds exactly `ws` (such as `s.map(f)`).
pub proof fn law_write_back<T>(s: Seq<T>, ws: Seq<T>, k: nat)
    requires
        ws.len() == s.len(),
        k <= s.len(),
    ensures
        written(s, ws, k) == ws.take(k as int) + s.skip(k as int),
        k == s.len() ==> written(s, ws, k) == ws,
    decreases k,
{
    if k > 0 {
        law_write_back(s, ws, (k - 1) as nat);
        assert(written(s, ws, k) =~= ws.take(k as int) + s.skip(k as int));
    }
    assert(ws.take(s.len() as int) + s.skip(s.len() as int) =~= ws);
}

/// A shared iterator over the elements of a list, from its start to its end.
pub struct Iter<'a, T> {
    list: &'a DoublyLinkedList<T>,
    next_slot: Option<usize>,
    pos: Ghost<int>,
}

impl<'a, T> Iter<'a, T> {
    /// The elements that the iterator walks over.
    pub closed spec fn seq(&self) -> Seq<T> {
        self.list@
    }

    /// How many elements the iterator has handed out.
    pub closed spec fn pos(&self) -> int {
        self.pos@
    }

    /// The iterator's slot is that of the element at `pos`.
    pub closed spec fn wf(&self) -> bool {
        &&& self.list.wf()
        &&& 0 <= self.pos@ <= self.list.len
        &&& self.next_slot == (if self.pos@ < self.list.len {
            Some(self.list.order@[self.pos@])
        } else {
            None::<usize>
        })
    }

    /// Hands out the next element, or `None` once every element was handed out.
    pub fn next(&mut self) -> (res: Option<&'a T>)
        requires
            old(self).wf(),
        ensures
            final(self).wf(),
            final(self).seq() == old(self).seq(),
            old(self).pos() < old(self).seq().len() ==> res == Some(&old(self).seq()[old(self).pos()])
                && final(self).pos() == old(self).pos() + 1,
            old(self).pos() >= old(self).seq().len() ==> res is None && final(self).pos()
                == old(self).pos(),
            ((match res { Some(r) => Some(*r), None => None }), final(self).pos()) == iter_step(
                old(self).seq(),
                old(self).pos(),
            ),
    {
        match self.next_slot {
            None => None,
            Some(k) => {
                let list: &'a DoublyLinkedList<T> = self.list;
                proof {
                    assert(list.node_wf(self.pos@));
                    if self.pos@ + 1 < list.len {
                        assert(list.node_wf(self.pos@ + 1));
                    }
                }
                self.next_slot = list.rights[k];
                proof {
                    self.pos@ = self.pos@ + 1;
                }
                Some(&list.items[k])
            },
        }
    }
}

/// An exclusive iterator over the elements of a list, from its start to its
/// end.  Each element it hands out can be changed in place.
pub struct IterMut<'a, T> {
    list: &'a mut DoublyLinkedList<T>,
    next_slot: Option<usize>,
    pos: Ghost<int>,
}

impl<'a, T> IterMut<'a, T> {
    /// The current elements of the list that the iterator walks over.
    pub closed spec fn seq(&self) -> Seq<T> {
        self.list@
    }

    /// The borrow of the list that the iterator walks over.
    pub closed spec fn borrowed(&self) -> &'a mut DoublyLinkedList<T> {
        self.list
    }

    /// The elements the iterator walks over are those that the borrowed list
    /// holds now, and once the iterator is done with the list (it has
    /// resolved), the list holds what it holds now.
    pub proof fn lemma_borrowed(&self)
        ensures
            self.seq() == (*self.borrowed())@,
            has_resolved(*self) ==> *self.borrowed() == *final(self.borrowed()),
    {
    }

    /// How many elements the iterator has handed out.
    pub closed spec fn pos(&self) -> int {
        self.pos@
    }

    /// The iterator's slot is that of the element at `pos`.
    pub closed spec fn wf(&self) -> bool {
        &&& self.list.wf()
        &&& 0 <= self.pos@ <= self.list.len
        &&& self.next_slot == (if self.pos@ < self.list.len {
            Some(self.list.order@[self.pos@])
        } else {
            None::<usize>
        })
    }

    /// Hands out the next element for change, or `None` once every element
    /// was handed out.
    pub fn next(&mut self) -> (res: Option<&mut T>)
        requires
            old(self).wf(),
        ensures
            final(self).wf(),
            *final(final(self).borrowed()) == *final(old(self).borrowed()),
            old(self).pos() < old(self).seq().len() ==> (res matches Some(r) && *r == old(self).seq()[old(self).pos()]
                && final(self).seq() == old(self).seq().update(old(self).pos(), *final(r))
                && final(self).pos() == old(self).pos() + 1),
            old(self).pos() >= old(self).seq().len() ==> res is None && final(self).pos()
                == old(self).pos() && final(self).seq() == old(self).seq(),
            final(self).pos() == iter_step(old(self).seq(), old(self).pos()).1,
    {
        let next_slot = self.next_slot;
        match next_slot {
            None => None,
            Some(k) => {
                proof {
                    assert(self.list.node_wf(self.pos@));
                    if self.pos@ + 1 < self.list.len {
                        assert(self.list.node_wf(self.pos@ + 1));
                    }
                }
                self.next_slot = self.list.rights[k];
                let ghost p = self.pos@;
                proof {
                    self.pos@ = self.pos@ + 1;
                }
                let ghost before = *self.list;
                let list: &mut DoublyLinkedList<T> = &mut *self.list;
                let ghost after = *final(list);
                let r = list.slot_mut(k, Ghost(p));
                proof {
                    DoublyLinkedList::lemma_view_update(before, after, p, *final(r));
                }
                Some(r)
            },
        }
    }
}

/// An iterator that takes the elements out of a list, from its start to its
/// end.
pub struct IntoIter<T> {
    list: DoublyLinkedList<T>,
    started: Ghost<bool>,
}

impl<T> IntoIter<T> {
    /// The elements that are still to be taken out.
    pub closed spec fn seq(&self) -> Seq<T> {
        self.list@
    }

    /// Whether `next` was called since the iterator was made.
    pub closed spec fn started(&self) -> bool {
        self.started@
    }

    /// The iterator holds a well-formed list.
    pub closed spec fn wf(&self) -> bool {
        self.list.wf()
    }

    /// Takes out the first of the remaining elements, or returns `None` once
    /// there is none left.
    ///
    /// The first call on an iterator made from a list of exactly one element
    /// is refused: that element is still held as the end of the list when it
    /// is taken out.
    pub fn next(&mut self) -> (res: Option<T>)
        requires
            old(self).wf(),
            !(!old(self).started() && old(self).seq().len() == 1),
        ensures
            final(self).wf(),
            final(self).started(),
            old(self).seq().len() == 0 ==> res is None && final(self).seq() == old(self).seq(),
            old(self).seq().len() > 0 ==> res == Some(old(self).seq()[0])
                && final(self).seq() == old(self).seq().drop_first(),
            (res, final(self).seq()) == drain_step(old(self).seq()),
    {
        match self.list.start {
            None => {
                proof {
                    self.started@ = true;
                }
                None
            },
            Some(k) => {
                proof {
                    assert(self.list.node_wf(0));
                }
                let x = self.list.unlink_slot(k, Ghost(0));
                proof {
                    self.started@ = true;
                }
                assert(old(self).seq().remove(0) =~= old(self).seq().drop_first());
                Some(x)
            },
        }
    }
}

} // verus!
