use vstd::prelude::*;
use std::task::Waker;
use vstd::multiset::Multiset;
use std::cmp::Ordering;
use vstd::std_specs::cmp::{PartialEqSpec, PartialOrdSpec};

verus! {

#[verifier::external_type_specification]
#[verifier::external_body]
pub struct ExWaker(Waker);

/// `<[T]>::swap`, called on a vector: its documentation says that the two
/// elements trade places and nothing else changes; it panics out of bounds,
/// which `requires` rules out.
#[verifier::external_body]
fn swap_entries<T>(v: &mut Vec<T>, i: usize, j: usize)
    requires
        i < old(v)@.len(),
        j < old(v)@.len(),
    ensures
        final(v)@ == old(v)@.update(i as int, old(v)@[j as int]).update(j as int, old(v)@[i as int]),
{
    v.swap(i, j);
}

/// A deadline and the waker to call once it is reached. Deadlines are
/// nanoseconds on the runtime's monotonic clock.
pub struct TimerEntry {
    pub when: u64,
    pub waker: Waker,
}

/// Two entries compare equal when their deadlines are equal.
impl PartialEq for TimerEntry {
    fn eq(&self, other: &Self) -> (r: bool)
        ensures
            r == (self.when == other.when),
    {
        self.when == other.when
    }
}

impl vstd::std_specs::cmp::PartialEqSpecImpl for TimerEntry {
    open spec fn obeys_eq_spec() -> bool {
        true
    }

    open spec fn eq_spec(&self, other: &Self) -> bool {
        self.when == other.when
    }
}

/// Entries are ordered by urgency: the earlier deadline is the greater
/// entry, so that an earlier deadline ranks first.
impl PartialOrd for TimerEntry {
    fn partial_cmp(&self, other: &Self) -> (r: Option<Ordering>)
        ensures
            self.when < other.when ==> r == Some(Ordering::Greater),
            self.when == other.when ==> r == Some(Ordering::Equal),
            self.when > other.when ==> r == Some(Ordering::Less),
    {
        if self.when < other.when {
            Some(Ordering::Greater)
        } else if self.when == other.when {
            Some(Ordering::Equal)
        } else {
            Some(Ordering::Less)
        }
    }
}

impl vstd::std_specs::cmp::PartialOrdSpecImpl for TimerEntry {
    open spec fn obeys_partial_cmp_spec() -> bool {
        true
    }

    open spec fn partial_cmp_spec(&self, other: &Self) -> Option<Ordering> {
        if self.when < other.when {
            Some(Ordering::Greater)
        } else if self.when == other.when {
            Some(Ordering::Equal)
        } else {
            Some(Ordering::Less)
        }
    }
}

/// The index of the parent of slot `i` in an array-backed binary heap.
spec fn parent(i: int) -> int {
    (i - 1) / 2
}

/// Every slot's deadline is at least its parent's: the array is a min-heap.
spec fn heap_ordered(s: Seq<TimerEntry>) -> bool {
    forall|i: int| 0 < i < s.len() ==> #[trigger] s[parent(i)].when <= s[i].when
}

/// Every slot except `i` is at least its parent; and where `i` is not the
/// root, `i`'s parent is at most `i`'s children: the state while an entry is
/// being moved into place.
spec fn heap_ordered_except(s: Seq<TimerEntry>, i: int) -> bool {
    &&& forall|j: int| 0 < j < s.len() && j != i ==> s[parent(j)].when <= #[trigger] s[j].when
    &&& forall|j: int|
        0 < j < s.len() && parent(j) == i && i > 0 ==> s[parent(i)].when <= #[trigger] s[j].when
}

/// Every slot whose parent is not `i` is at least its parent; and where `i`
/// is not the root, `i`'s parent is at most `i`'s children: the state while
/// an entry sinks into place.
#[verifier::opaque]
spec fn heap_ordered_except_below(s: Seq<TimerEntry>, i: int) -> bool {
    &&& forall|j: int| 0 < j < s.len() && parent(j) != i ==> s[parent(j)].when <= #[trigger] s[j].when
    &&& forall|j: int|
        0 < j < s.len() && parent(j) == i && i > 0 ==> s[parent(i)].when <= #[trigger] s[j].when
}

/// In a min-heap the root holds an earliest deadline.
proof fn lemma_root_is_min(s: Seq<TimerEntry>, i: int)
    requires
        heap_ordered(s),
        0 <= i < s.len(),
    ensures
        s[0].when <= s[i].when,
    decreases i,
{
    if i > 0 {
        assert(s[parent(i)].when <= s[i].when);
        lemma_root_is_min(s, parent(i));
    }
}

/// Swapping two slots does not change what the sequence holds.
proof fn lemma_swap_keeps_multiset(s: Seq<TimerEntry>, i: int, j: int)
    requires
        0 <= i < s.len(),
        0 <= j < s.len(),
    ensures
        s.update(i, s[j]).update(j, s[i]).to_multiset() =~= s.to_multiset(),
{
    broadcast use {
        vstd::seq_lib::group_to_multiset_ensures,
        vstd::multiset::group_multiset_axioms,
    };
    let s1 = s.update(i, s[j]);
    assert(s1.to_multiset() =~= s.to_multiset().insert(s[j]).remove(s[i]));
    assert(s1.update(j, s[i]).to_multiset() =~= s1.to_multiset().insert(s[i]).remove(s1[j]));
    if i == j {
        assert(s.update(i, s[j]).update(j, s[i]) =~= s);
    } else {
        assert(s1[j] == s[j]);
    }
}

/// Moves the entry at `i` towards the root until its parent is no later.
fn sift_up(v: &mut Vec<TimerEntry>, i: usize)
    requires
        i < old(v)@.len(),
        heap_ordered_except(old(v)@, i as int),
    ensures
        heap_ordered(final(v)@),
        final(v)@.to_multiset() =~= old(v)@.to_multiset(),
        final(v)@.len() == old(v)@.len(),
{
    let mut i = i;
    while i > 0
        invariant
            i < v@.len(),
            v@.len() == old(v)@.len(),
            heap_ordered_except(v@, i as int),
            v@.to_multiset() =~= old(v)@.to_multiset(),
        decreases i,
    {
        let p = (i - 1) / 2;
        if v[p].when <= v[i].when {
            proof { lemma_rise_done(v@, i as int); }
            return;
        }
        proof {
            lemma_swap_keeps_multiset(v@, i as int, p as int);
            lemma_rise_step(v@, i as int);
        }
        swap_entries(v, i, p);
        i = p;
    }
}

/// Where the entry at `i` is no earlier than its parent, the heap is
/// ordered.
proof fn lemma_rise_done(s: Seq<TimerEntry>, i: int)
    requires
        0 < i < s.len(),
        heap_ordered_except(s, i),
        s[parent(i)].when <= s[i].when,
    ensures
        heap_ordered(s),
{
    assert forall|j: int| 0 < j < s.len() implies #[trigger] s[parent(j)].when <= s[j].when by {
        if j != i {
            assert(s[parent(j)].when <= s[j].when);
        }
    }
}

/// Swapping the entry at `i` with its parent, when the parent is later,
/// moves the one disorder up to the parent.
proof fn lemma_rise_step(s: Seq<TimerEntry>, i: int)
    requires
        0 < i < s.len(),
        heap_ordered_except(s, i),
        s[i].when < s[parent(i)].when,
    ensures
        heap_ordered_except(s.update(i, s[parent(i)]).update(parent(i), s[i]), parent(i)),
{
    let p = parent(i);
    let t = s.update(i, s[p]).update(p, s[i]);
    assert forall|j: int| 0 < j < t.len() && j != p implies t[parent(j)].when <= #[trigger] t[j].when by {
        if j == i {
        } else if parent(j) == i {
            assert(s[p].when <= s[j].when);
        } else if parent(j) == p {
            assert(s[p].when <= s[j].when);
        } else {
            assert(s[parent(j)].when <= s[j].when);
        }
    }
    assert forall|j: int| 0 < j < t.len() && parent(j) == p && p > 0 implies t[parent(p)].when <= #[trigger] t[j].when by {
        if j != i {
            assert(s[p].when <= s[j].when);
        }
    }
}

/// Moves the entry at `i` away from the root until no child is earlier.
fn sift_down(v: &mut Vec<TimerEntry>, i: usize)
    requires
        i < old(v)@.len(),
        heap_ordered_except_below(old(v)@, i as int),
    ensures
        heap_ordered(final(v)@),
        final(v)@.to_multiset() =~= old(v)@.to_multiset(),
        final(v)@.len() == old(v)@.len(),
{
    let n = v.len();
    let mut i = i;
    loop
        invariant
            i < v@.len(),
            n == v@.len(),
            v@.len() == old(v)@.len(),
            heap_ordered_except_below(v@, i as int),
            v@.to_multiset() =~= old(v)@.to_multiset(),
        decreases n - i,
    {
        let ghost s = v@;
        let l: usize = if i < (usize::MAX - 1) / 2 { 2 * i + 1 } else { n };
        if l >= n {
            proof { lemma_sink_done(s, i as int); }
            return;
        }
        let r = l + 1;
        let c = if r < n && v[r].when < v[l].when { r } else { l };
        if v[i].when <= v[c].when {
            proof { lemma_sink_done(s, i as int); }
            return;
        }
        proof {
            lemma_swap_keeps_multiset(s, i as int, c as int);
            lemma_sink_step(s, i as int, c as int);
        }
        swap_entries(v, i, c);
        i = c;
    }
}

/// Where the entry at `i` is no later than any child of `i`, the heap is
/// ordered.
proof fn lemma_sink_done(s: Seq<TimerEntry>, i: int)
    requires
        0 <= i < s.len(),
        heap_ordered_except_below(s, i),
        2 * i + 1 < s.len() ==> s[i].when <= s[2 * i + 1].when,
        2 * i + 2 < s.len() ==> s[i].when <= s[2 * i + 2].when,
    ensures
        heap_ordered(s),
{
    reveal(heap_ordered_except_below);
    assert forall|j: int| 0 < j < s.len() implies #[trigger] s[parent(j)].when <= s[j].when by {
        if parent(j) == i {
            assert(j == 2 * i + 1 || j == 2 * i + 2);
        }
    }
}

/// Swapping the entry at `i` with its earliest child `c`, when that child is
/// earlier, moves the one disorder down to `c`.
proof fn lemma_sink_step(s: Seq<TimerEntry>, i: int, c: int)
    requires
        0 <= i < s.len(),
        heap_ordered_except_below(s, i),
        c == 2 * i + 1 || c == 2 * i + 2,
        c < s.len(),
        s[c].when < s[i].when,
        2 * i + 1 < s.len() ==> s[c].when <= s[2 * i + 1].when,
        2 * i + 2 < s.len() ==> s[c].when <= s[2 * i + 2].when,
    ensures
        heap_ordered_except_below(s.update(i, s[c]).update(c, s[i]), c),
{
    reveal(heap_ordered_except_below);
    let t = s.update(i, s[c]).update(c, s[i]);
    assert(parent(c) == i);
    assert forall|j: int| 0 < j < t.len() && parent(j) != c implies t[parent(j)].when <= #[trigger] t[j].when by {
        if j == c {
        } else if j == i {
            if i > 0 {
                assert(s[parent(i)].when <= s[c].when);
            }
        } else if parent(j) == i {
            assert(j == 2 * i + 1 || j == 2 * i + 2);
        } else {
            assert(parent(j) != i);
            assert(s[parent(j)].when <= s[j].when);
        }
    }
    assert forall|j: int| 0 < j < t.len() && parent(j) == c implies t[parent(c)].when <= #[trigger] t[j].when by {
        assert(s[c].when <= s[j].when);
    }
}

/// The entries of `m` whose deadline is later than `now`.
pub open spec fn not_due(m: Multiset<TimerEntry>, now: u64) -> Multiset<TimerEntry> {
    m.filter(|e: TimerEntry| e.when > now)
}

/// The entries of `m` whose deadline is not later than `now`.
pub open spec fn is_due(m: Multiset<TimerEntry>, now: u64) -> Multiset<TimerEntry> {
    m.filter(|e: TimerEntry| e.when <= now)
}

/// `e` is in `m` and no entry of `m` has an earlier deadline.
pub open spec fn is_earliest(m: Multiset<TimerEntry>, e: TimerEntry) -> bool {
    &&& m.count(e) > 0
    &&& forall|x: TimerEntry| #[trigger] m.count(x) > 0 ==> e.when <= x.when
}

proof fn lemma_empty_seq_multiset(s: Seq<TimerEntry>)
    requires
        s.len() == 0,
    ensures
        s.to_multiset() =~= Multiset::empty(),
{
    broadcast use {
        vstd::seq_lib::group_to_multiset_ensures,
        vstd::multiset::group_multiset_axioms,
        vstd::multiset::lemma_multiset_empty_len,
    };
    assert(s.to_multiset().len() == 0);
}

/// The root of a min-heap is an earliest entry of what the heap holds.
proof fn lemma_root_is_earliest(s: Seq<TimerEntry>)
    requires
        heap_ordered(s),
        s.len() > 0,
    ensures
        is_earliest(s.to_multiset(), s[0]),
{
    broadcast use vstd::seq_lib::group_to_multiset_ensures;
    assert(s.contains(s[0]));
    assert forall|x: TimerEntry| #[trigger] s.to_multiset().count(x) > 0 implies s[0].when <= x.when by {
        assert(s.contains(x));
        let k = choose|k: int| 0 <= k < s.len() && s[k] == x;
        lemma_root_is_min(s, k);
    }
}

/// Adding an entry as a new last slot of a min-heap adds it to what the heap
/// holds and leaves the heap ready to raise the new entry.
proof fn lemma_add_leaf(s: Seq<TimerEntry>, e: TimerEntry)
    requires
        heap_ordered(s),
    ensures
        s.push(e).to_multiset() =~= s.to_multiset().insert(e),
        heap_ordered_except(s.push(e), s.len() as int),
{
    broadcast use vstd::seq_lib::group_to_multiset_ensures;
    let t = s.push(e);
    assert forall|j: int| 0 < j < t.len() && j != s.len() implies t[parent(j)].when <= #[trigger] t[j].when by {
        assert(s[parent(j)].when <= s[j].when);
    }
}

/// Taking the root out of a min-heap by moving the last slot into its place
/// leaves everything else, ready to sink the moved entry.
proof fn lemma_take_root(s: Seq<TimerEntry>)
    requires
        heap_ordered(s),
        s.len() > 0,
    ensures
        s.update(0, s.last()).drop_last().to_multiset() =~= s.to_multiset().remove(s[0]),
        s.len() > 1 ==> heap_ordered_except_below(s.update(0, s.last()).drop_last(), 0),
{
    broadcast use {
        vstd::seq_lib::group_to_multiset_ensures,
        vstd::multiset::group_multiset_axioms,
    };
    reveal(heap_ordered_except_below);
    let last = s.last();
    let t = s.update(0, last).drop_last();
    if s.len() > 1 {
        assert(s.update(0, last) =~= t.push(last));
        assert(s.update(0, last).to_multiset() =~= s.to_multiset().insert(last).remove(s[0]));
        assert(t.push(last).to_multiset() =~= t.to_multiset().insert(last));
        assert(t.to_multiset().insert(last) =~= s.to_multiset().insert(last).remove(s[0]));
        assert forall|x: TimerEntry| #[trigger] t.to_multiset().count(x) == s.to_multiset().remove(s[0]).count(x) by {
            assert(t.to_multiset().insert(last).count(x) == s.to_multiset().insert(last).remove(s[0]).count(x));
        }
    } else {
        assert(t =~= s.remove(0));
    }
}

/// The timer queue: deadlines with their wakers, kept as a binary min-heap on
/// the deadline so that the earliest one is always at hand.
pub struct Timer {
    heap: Vec<TimerEntry>,
}

impl Timer {
    #[verifier::type_invariant]
    spec fn inv(self) -> bool {
        heap_ordered(self.heap@)
    }

    /// What the timer holds: each registered entry not yet taken out.
    pub closed spec fn entries(&self) -> Multiset<TimerEntry> {
        self.heap@.to_multiset()
    }

    /// An empty timer.
    pub fn new() -> (t: Self)
        ensures
            t.entries() =~= Multiset::empty(),
    {
        proof { lemma_empty_seq_multiset(Seq::<TimerEntry>::empty()); }
        Timer { heap: Vec::new() }
    }

    /// The number of registered entries.
    pub fn len(&self) -> (n: usize)
        ensures
            n == self.entries().len(),
    {
        proof { broadcast use vstd::seq_lib::group_to_multiset_ensures; }
        self.heap.len()
    }

    /// Registers `waker` to be woken once `when` is reached.
    pub fn register(&mut self, when: u64, waker: Waker)
        ensures
            final(self).entries() =~= old(self).entries().insert(TimerEntry { when, waker }),
    {
        proof { use_type_invariant(&*self); }
        let mut heap = Vec::new();
        std::mem::swap(&mut heap, &mut self.heap);
        proof { lemma_add_leaf(heap@, TimerEntry { when, waker }); }
        heap.push(TimerEntry { when, waker });
        let last = heap.len() - 1;
        sift_up(&mut heap, last);
        self.heap = heap;
    }

    /// An entry with the earliest deadline, or `None` when the timer is empty.
    pub fn peek(&self) -> (r: Option<&TimerEntry>)
        ensures
            r is None <==> self.entries().len() == 0,
            r matches Some(e) ==> is_earliest(self.entries(), *e),
    {
        proof {
            use_type_invariant(self);
            broadcast use vstd::seq_lib::group_to_multiset_ensures;
        }
        if self.heap.len() == 0 {
            None
        } else {
            proof { lemma_root_is_earliest(self.heap@); }
            Some(&self.heap[0])
        }
    }

    /// Takes out an entry with the earliest deadline, or returns `None` when
    /// the timer is empty.
    pub fn pop(&mut self) -> (r: Option<TimerEntry>)
        ensures
            r is None <==> old(self).entries().len() == 0,
            r is None ==> final(self).entries() == old(self).entries(),
            r matches Some(e) ==> {
                &&& is_earliest(old(self).entries(), e)
                &&& final(self).entries() =~= old(self).entries().remove(e)
            },
    {
        proof {
            use_type_invariant(&*self);
            broadcast use vstd::seq_lib::group_to_multiset_ensures;
        }
        if self.heap.len() == 0 {
            return None;
        }
        let mut heap = Vec::new();
        std::mem::swap(&mut heap, &mut self.heap);
        let ghost before = heap@;
        proof { lemma_root_is_earliest(before); }
        proof { lemma_take_root(before); }
        let top = heap.swap_remove(0);
        if heap.len() > 0 {
            sift_down(&mut heap, 0);
        }
        self.heap = heap;
        Some(top)
    }

    /// Takes out an earliest entry if its deadline is not later than `now`.
    pub fn pop_due(&mut self, now: u64) -> (r: Option<TimerEntry>)
        ensures
            r is None ==> final(self).entries() == old(self).entries(),
            r is None ==> forall|x: TimerEntry| #[trigger] old(self).entries().count(x) > 0 ==> x.when > now,
            r matches Some(e) ==> {
                &&& e.when <= now
                &&& is_earliest(old(self).entries(), e)
                &&& final(self).entries() =~= old(self).entries().remove(e)
            },
    {
        let due = match self.peek() {
            Some(e) => e.when <= now,
            None => false,
        };
        if due {
            self.pop()
        } else {
            None
        }
    }

    /// One pass of the timer driver: takes out every entry whose deadline is
    /// not later than `now`, and returns them in deadline order, for their
    /// wakers to be woken in that order; what stays is exactly what is not
    /// due.
    pub fn take_due(&mut self, now: u64) -> (due: Vec<TimerEntry>)
        ensures
            final(self).entries() =~= not_due(old(self).entries(), now),
            due@.to_multiset() =~= is_due(old(self).entries(), now),
            forall|i: int, j: int| 0 <= i <= j < due@.len() ==> due@[i].when <= due@[j].when,
    {
        let mut due: Vec<TimerEntry> = Vec::new();
        proof { lemma_empty_seq_multiset(due@); }
        loop
            invariant
                not_due(self.entries(), now) =~= not_due(old(self).entries(), now),
                due@.to_multiset().add(self.entries()) =~= old(self).entries(),
                forall|i: int, j: int| 0 <= i <= j < due@.len() ==> due@[i].when <= due@[j].when,
                forall|i: int, x: TimerEntry|
                    0 <= i < due@.len() && #[trigger] self.entries().count(x) > 0 ==> #[trigger] due@[i].when <= x.when,
            decreases self.entries().len(),
        {
            let ghost before = self.entries();
            let ghost taken = due@;
            match self.pop_due(now) {
                Some(entry) => {
                    proof {
                        broadcast use {
                            vstd::multiset::group_multiset_axioms,
                            vstd::seq_lib::group_to_multiset_ensures,
                        };
                        assert(not_due(self.entries(), now) =~= not_due(before, now));
                        assert(before.len() == self.entries().len() + 1);
                        assert(taken.push(entry).to_multiset() =~= taken.to_multiset().insert(entry));
                        assert(taken.to_multiset().insert(entry).add(self.entries()) =~= taken.to_multiset().add(before));
                        assert forall|i: int, x: TimerEntry|
                            0 <= i < taken.len() + 1 && #[trigger] self.entries().count(x) > 0
                            implies #[trigger] taken.push(entry)[i].when <= x.when by {
                            assert(before.count(x) > 0);
                        }
                    }
                    due.push(entry);
                },
                None => {
                    proof {
                        broadcast use vstd::multiset::group_multiset_axioms;
                        assert(self.entries() =~= not_due(self.entries(), now));
                        assert forall|x: TimerEntry| #[trigger] due@.to_multiset().count(x)
                            == is_due(old(self).entries(), now).count(x) by {
                            assert(due@.to_multiset().add(self.entries()).count(x) == old(self).entries().count(x));
                            assert(self.entries().count(x) == not_due(old(self).entries(), now).count(x));
                        }
                        assert(due@.to_multiset() =~= is_due(old(self).entries(), now));
                    }
                    return due;
                },
            }
        }
    }
}

/// Entries come out of the timer in deadline order: an earliest entry taken
/// out first is no later than an earliest entry of what remains.
pub proof fn law_pops_come_in_deadline_order(m: Multiset<TimerEntry>, first: TimerEntry, second: TimerEntry)
    requires
        is_earliest(m, first),
        is_earliest(m.remove(first), second),
    ensures
        first.when <= second.when,
{
    broadcast use vstd::multiset::group_multiset_axioms;
    assert(m.remove(first).count(second) > 0);
    if second != first {
        assert(m.count(second) > 0);
    }
}

/// Taking out what is due at `now` splits what the timer holds in two, with
/// nothing lost or added: the due entries, which are taken out to be woken,
/// and the entries whose deadline is later, which stay as often as before.
pub proof fn law_take_due_splits_at_now(m: Multiset<TimerEntry>, now: u64, x: TimerEntry)
    ensures
        is_due(m, now).add(not_due(m, now)) =~= m,
        x.when <= now ==> not_due(m, now).count(x) == 0 && is_due(m, now).count(x) == m.count(x),
        x.when > now ==> not_due(m, now).count(x) == m.count(x) && is_due(m, now).count(x) == 0,
{
    broadcast use vstd::multiset::group_multiset_axioms;
    assert forall|y: TimerEntry| #[trigger] is_due(m, now).add(not_due(m, now)).count(y) == m.count(y) by {
    }
}

/// A waker registered for `when` is taken out by the first driver pass at a
/// time not earlier than `when`, and kept by every pass before that.
pub proof fn law_registered_entry_fires_once_due(m: Multiset<TimerEntry>, e: TimerEntry, now: u64)
    ensures
        e.when <= now ==> not_due(m.insert(e), now).count(e) == 0,
        e.when > now ==> not_due(m.insert(e), now).count(e) == m.count(e) + 1,
{
    broadcast use vstd::multiset::group_multiset_axioms;
}

/// Entries compare by deadline alone: two entries are equal exactly when
/// their deadlines are, equality is symmetric, and the earlier deadline
/// ranks higher; the comparison says `Equal` exactly when the entries are
/// equal.
pub proof fn law_entries_compare_by_deadline(a: TimerEntry, b: TimerEntry)
    ensures
        a.eq_spec(&b) <==> a.when == b.when,
        a.eq_spec(&b) <==> b.eq_spec(&a),
        a.partial_cmp_spec(&b) == Some(Ordering::Equal) <==> a.eq_spec(&b),
        a.partial_cmp_spec(&b) == Some(Ordering::Greater) <==> a.when < b.when,
        a.partial_cmp_spec(&b) == Some(Ordering::Less) <==> a.when > b.when,
        a.partial_cmp_spec(&b) == Some(Ordering::Greater) <==> b.partial_cmp_spec(&a) == Some(Ordering::Less),
{
}

} // verus!
