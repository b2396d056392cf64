//! The rolling p95 latency estimator.
//!
//! The tracker keeps a bounded sorted window of latency samples.
//! While the window has room, every sample enters it; once full, a
//! new sample displaces the current maximum only when it is strictly
//! smaller.  The window therefore always holds the smallest
//! `capacity` samples seen so far, biasing the estimate toward the
//! lower tail — a floor of best-case latency, not a population
//! estimator.  The percentile is the sample at index
//! `ceil(0.95 * capacity) - 1` of the sorted window.

use vstd::prelude::*;

verus! {

/// Non-decreasing order.
pub open spec fn sorted(s: Seq<u128>) -> bool {
    forall|i: int, j: int| 0 <= i < j < s.len() ==> s[i] <= s[j]
}

/// Number of samples in `s` strictly below `t`.
pub open spec fn count_below(s: Seq<u128>, t: int) -> int
    decreases s.len(),
{
    if s.len() == 0 {
        0
    } else {
        count_below(s.drop_last(), t) + if s.last() < t {
            1int
        } else {
            0int
        }
    }
}

/// The first position at which `x` can sit in `s` without breaking
/// sorted order: the first index holding a value `>= x`.
pub open spec fn insert_pos(s: Seq<u128>, x: u128) -> int
    decreases s.len(),
{
    if s.len() == 0 {
        0
    } else if x <= s[0] {
        0
    } else {
        1 + insert_pos(s.skip(1), x)
    }
}

/// `s` with `x` inserted at its sorted position.
pub open spec fn sorted_insert(s: Seq<u128>, x: u128) -> Seq<u128> {
    s.insert(insert_pos(s, x), x)
}

/// The window contents after pushing every sample of `history` in
/// order into an empty tracker of the given capacity.
pub open spec fn window_after(history: Seq<u128>, cap: nat) -> Seq<u128>
    decreases history.len(),
{
    if history.len() == 0 {
        Seq::empty()
    } else {
        let prev = window_after(history.drop_last(), cap);
        let x = history.last();
        if prev.len() < cap {
            sorted_insert(prev, x)
        } else if cap > 0 && x < prev.last() {
            sorted_insert(prev.drop_last(), x)
        } else {
            prev
        }
    }
}

/// The index of the 95th percentile in a sorted window of `len`
/// samples: `ceil(0.95 * len) - 1`, computed as `len - len/20 - 1`.
pub open spec fn p95_index(len: int) -> int {
    len - len / 20 - 1
}

/// The two renderings of the percentile index agree:
/// `len - len/20 == ceil(19 * len / 20)`.
pub proof fn lemma_p95_index_is_ceil(len: int)
    requires
        len >= 0,
    ensures
        p95_index(len) == (19 * len + 19) / 20 - 1,
{
    let q = len / 20;
    let r = len % 20;
    vstd::arithmetic::div_mod::lemma_fundamental_div_mod(len, 20);
    assert(len == 20 * q + r);
    assert(0 <= r < 20) by {
        vstd::arithmetic::div_mod::lemma_mod_bound(len, 20);
    }
    assert(19 * len + 19 == 20 * (19 * q + r) + (19 - r));
    vstd::arithmetic::div_mod::lemma_fundamental_div_mod_converse(
        19 * len + 19,
        20,
        19 * q + r,
        19 - r,
    );
}

/// Bounds of `count_below`, and what it means for it to reach the
/// length: every sample sits below the threshold.
pub proof fn lemma_count_below_bounds(s: Seq<u128>, t: int)
    ensures
        0 <= count_below(s, t) <= s.len(),
        count_below(s, t) == s.len() <==> (forall|j: int| 0 <= j < s.len() ==> s[j] < t),
    decreases s.len(),
{
    if s.len() > 0 {
        lemma_count_below_bounds(s.drop_last(), t);
        assert(forall|j: int| 0 <= j < s.len() - 1 ==> s.drop_last()[j] == s[j]);
    }
}

/// Splitting a concatenation splits the count.
pub proof fn lemma_count_below_concat(a: Seq<u128>, b: Seq<u128>, t: int)
    ensures
        count_below(a + b, t) == count_below(a, t) + count_below(b, t),
    decreases b.len(),
{
    if b.len() == 0 {
        assert(a + b =~= a);
    } else {
        lemma_count_below_concat(a, b.drop_last(), t);
        assert((a + b).drop_last() =~= a + b.drop_last());
        assert((a + b).last() == b.last());
    }
}

/// Where `insert_pos` lands: after every smaller sample, before the
/// first sample `>= x`.
pub proof fn lemma_insert_pos_props(s: Seq<u128>, x: u128)
    ensures
        0 <= insert_pos(s, x) <= s.len(),
        forall|j: int| 0 <= j < insert_pos(s, x) ==> s[j] < x,
        insert_pos(s, x) < s.len() ==> x <= s[insert_pos(s, x)],
    decreases s.len(),
{
    if s.len() > 0 && !(x <= s[0]) {
        lemma_insert_pos_props(s.skip(1), x);
        assert(forall|j: int| 0 <= j < s.len() - 1 ==> s.skip(1)[j] == s[j + 1]);
        assert forall|j: int| 0 <= j < insert_pos(s, x) implies s[j] < x by {
            if j > 0 {
                assert(s.skip(1)[j - 1] == s[j]);
            }
        }
    }
}

/// Inserting at the sorted position keeps the window sorted, grows
/// it by one, raises every threshold count by at most one, and moves
/// the maximum only when the new sample exceeds it.
pub proof fn lemma_sorted_insert_props(s: Seq<u128>, x: u128)
    requires
        sorted(s),
    ensures
        sorted(sorted_insert(s, x)),
        sorted_insert(s, x).len() == s.len() + 1,
        forall|t: int|
            #[trigger] count_below(sorted_insert(s, x), t) == count_below(s, t) + if x < t {
                1int
            } else {
                0int
            },
        sorted_insert(s, x).last() == if s.len() == 0 || x > s.last() {
            x
        } else {
            s.last()
        },
{
    let p = insert_pos(s, x);
    let w = sorted_insert(s, x);
    lemma_insert_pos_props(s, x);
    assert(w == s.subrange(0, p).push(x) + s.subrange(p, s.len() as int));
    assert(w.len() == s.len() + 1);
    assert(forall|i: int| 0 <= i < p ==> w[i] == s[i]);
    assert(w[p] == x);
    assert(forall|i: int| p < i < w.len() ==> w[i] == s[i - 1]);
    assert forall|i: int, j: int| 0 <= i < j < w.len() implies w[i] <= w[j] by {
        if i < p && j > p {
            assert(w[i] == s[i] && w[j] == s[j - 1] && i <= j - 1);
        }
    }
    assert forall|t: int|
        #[trigger] count_below(w, t) == count_below(s, t) + if x < t {
            1int
        } else {
            0int
        } by {
        lemma_count_below_concat(s.subrange(0, p).push(x), s.subrange(p, s.len() as int), t);
        assert(s.subrange(0, p).push(x).drop_last() =~= s.subrange(0, p));
        lemma_count_below_concat(s.subrange(0, p), s.subrange(p, s.len() as int), t);
        assert(s.subrange(0, p) + s.subrange(p, s.len() as int) =~= s);
    }
    if p < s.len() {
        assert(w.last() == s[s.len() - 1]);
        if s.len() > 0 && x > s.last() {
            assert(s[p] <= s[s.len() - 1]);
            assert(false);
        }
    } else {
        assert(w.last() == x);
        if s.len() > 0 && !(x > s.last()) {
            assert(s[s.len() - 1] < x);
            assert(false);
        }
    }
}

/// The window is always sorted and holds `min(samples, capacity)`
/// entries.
pub proof fn lemma_window_after_wf(h: Seq<u128>, cap: nat)
    ensures
        sorted(window_after(h, cap)),
        window_after(h, cap).len() == vstd::math::min(h.len() as int, cap as int),
    decreases h.len(),
{
    if h.len() > 0 {
        lemma_window_after_wf(h.drop_last(), cap);
        let prev = window_after(h.drop_last(), cap);
        let x = h.last();
        if prev.len() < cap {
            lemma_sorted_insert_props(prev, x);
        } else if cap > 0 && x < prev.last() {
            assert(sorted(prev.drop_last())) by {
                assert(forall|j: int| 0 <= j < prev.len() - 1 ==> prev.drop_last()[j] == prev[j]);
            }
            lemma_sorted_insert_props(prev.drop_last(), x);
        }
    }
}

/// The window holds, below every threshold, exactly as many samples
/// as the whole history does — up to the window size.  This is what
/// makes it the window of the `capacity` smallest samples seen so
/// far.
pub proof fn lemma_window_after_count(h: Seq<u128>, cap: nat, t: int)
    ensures
        count_below(window_after(h, cap), t) == vstd::math::min(
            count_below(h, t),
            window_after(h, cap).len() as int,
        ),
    decreases h.len(),
{
    lemma_window_after_wf(h, cap);
    lemma_count_below_bounds(h, t);
    let w = window_after(h, cap);
    if h.len() > 0 {
        let h2 = h.drop_last();
        let prev = window_after(h2, cap);
        let x = h.last();
        lemma_window_after_count(h2, cap, t);
        lemma_window_after_wf(h2, cap);
        lemma_count_below_bounds(h2, t);
        lemma_count_below_bounds(prev, t);
        if prev.len() < cap {
            lemma_sorted_insert_props(prev, x);
        } else if cap > 0 && x < prev.last() {
            assert(sorted(prev.drop_last())) by {
                assert(forall|j: int| 0 <= j < prev.len() - 1 ==> prev.drop_last()[j] == prev[j]);
            }
            lemma_sorted_insert_props(prev.drop_last(), x);
            lemma_count_below_bounds(prev.drop_last(), t);
            if prev.last() < t {
                // every sample of the full window sits below t
                assert(forall|j: int| 0 <= j < prev.len() ==> prev[j] <= prev.last());
                assert(count_below(prev, t) == prev.len());
            } else {
                assert(count_below(prev, t) < prev.len());
            }
        } else if cap > 0 {
            // x >= prev.last(): the sample is discarded
            if x < t {
                assert(forall|j: int| 0 <= j < prev.len() ==> prev[j] <= prev.last());
                assert(count_below(prev, t) == prev.len());
            }
        }
    }
}

/// `w` is the sorted window of the `cap` smallest samples of `h`:
/// below every threshold it holds every sample `h` has, up to its
/// size.
pub open spec fn is_smallest_window(w: Seq<u128>, h: Seq<u128>, cap: nat) -> bool {
    &&& sorted(w)
    &&& w.len() == vstd::math::min(h.len() as int, cap as int)
    &&& forall|t: int|
        #[trigger] count_below(w, t) == vstd::math::min(count_below(h, t), w.len() as int)
}

/// Two sorted sequences agreeing on every threshold count are equal.
pub proof fn lemma_sorted_eq_by_count_below(s1: Seq<u128>, s2: Seq<u128>)
    requires
        sorted(s1),
        sorted(s2),
        s1.len() == s2.len(),
        forall|t: int| #[trigger] count_below(s1, t) == count_below(s2, t),
    ensures
        s1 == s2,
{
    assert forall|i: int| 0 <= i < s1.len() implies s1[i] == s2[i] by {
        lemma_count_below_index(s1, i);
        lemma_count_below_index(s2, i);
        if s1[i] < s2[i] {
            assert(count_below(s1, s1[i] as int + 1) >= i + 1);
            assert(count_below(s2, s1[i] as int + 1) <= count_below(s2, s2[i] as int)) by {
                lemma_count_below_mono(s2, s1[i] as int + 1, s2[i] as int);
            }
        }
        if s2[i] < s1[i] {
            assert(count_below(s2, s2[i] as int + 1) >= i + 1);
            assert(count_below(s1, s2[i] as int + 1) <= count_below(s1, s1[i] as int)) by {
                lemma_count_below_mono(s1, s2[i] as int + 1, s1[i] as int);
            }
        }
    }
    assert(s1 =~= s2);
}

/// Counting is monotone in the threshold.
pub proof fn lemma_count_below_mono(s: Seq<u128>, t1: int, t2: int)
    requires
        t1 <= t2,
    ensures
        count_below(s, t1) <= count_below(s, t2),
    decreases s.len(),
{
    if s.len() > 0 {
        lemma_count_below_mono(s.drop_last(), t1, t2);
    }
}

/// In a sorted sequence, the counts below `s[i]` and just above it
/// bracket the index.
pub proof fn lemma_count_below_index(s: Seq<u128>, i: int)
    requires
        sorted(s),
        0 <= i < s.len(),
    ensures
        count_below(s, s[i] as int) <= i,
        count_below(s, s[i] as int + 1) >= i + 1,
    decreases s.len(),
{
    lemma_count_below_bounds(s, s[i] as int);
    if i == s.len() - 1 {
        // every index below a sample of value s[i] sits before i
        if count_below(s, s[i] as int) > i {
            assert(forall|j: int| 0 <= j < s.len() ==> s[j] < s[i]);
        }
        lemma_count_below_at_least(s, i);
    } else {
        lemma_count_below_index(s.drop_last(), i);
        assert(forall|j: int| 0 <= j < s.len() - 1 ==> s.drop_last()[j] == s[j]);
        assert(count_below(s, s[i] as int) <= count_below(s.drop_last(), s[i] as int) + if s.last()
            < s[i] {
            1int
        } else {
            0int
        });
        assert(!(s.last() < s[i]));
    }
}

/// At least `i + 1` samples of a sorted sequence sit strictly below
/// `s[i] + 1`.
proof fn lemma_count_below_at_least(s: Seq<u128>, i: int)
    requires
        sorted(s),
        0 <= i < s.len(),
    ensures
        count_below(s, s[i] as int + 1) >= i + 1,
    decreases s.len(),
{
    assert(forall|j: int| 0 <= j < s.len() - 1 ==> s.drop_last()[j] == s[j]);
    assert(sorted(s.drop_last()));
    if i == s.len() - 1 {
        if s.len() == 1 {
            lemma_count_below_bounds(s.drop_last(), s[i] as int + 1);
        } else {
            lemma_count_below_at_least(s.drop_last(), i - 1);
            assert(s.drop_last()[i - 1] == s[i - 1]);
            lemma_count_below_mono(s.drop_last(), s[i - 1] as int + 1, s[i] as int + 1);
        }
        assert(s.last() < s[i] + 1);
    } else {
        lemma_count_below_at_least(s.drop_last(), i);
        assert(s.drop_last()[i] == s[i]);
    }
}

/// There is exactly one sorted window of the smallest samples, and
/// it is the tracker's: whatever sorted sequence counts, below every
/// threshold, as many samples as the history up to the window size,
/// is the window the tracker maintains.
pub proof fn lemma_smallest_window_unique(w: Seq<u128>, h: Seq<u128>, cap: nat)
    requires
        is_smallest_window(w, h, cap),
    ensures
        w == window_after(h, cap),
{
    lemma_window_after_wf(h, cap);
    assert forall|t: int|
        #[trigger] count_below(window_after(h, cap), t) == count_below(w, t) by {
        lemma_window_after_count(h, cap, t);
    }
    lemma_sorted_eq_by_count_below(w, window_after(h, cap));
}

/// The estimator: a bounded sorted window of the smallest latency
/// samples pushed so far.
pub struct P95Tracker {
    data: Vec<u128>,
    capacity: usize,
    history: Ghost<Seq<u128>>,
}

impl P95Tracker {
    /// The sorted window of retained samples.
    pub closed spec fn window(&self) -> Seq<u128> {
        self.data@
    }

    /// The bound on the window size.
    pub closed spec fn cap(&self) -> nat {
        self.capacity as nat
    }

    /// Every sample ever pushed, in push order.
    pub closed spec fn seen(&self) -> Seq<u128> {
        self.history@
    }

    /// The window is exactly what pushing the whole history yields:
    /// the sorted window of the smallest `cap` samples seen.
    pub open spec fn wf(&self) -> bool {
        self.window() == window_after(self.seen(), self.cap())
    }

    /// An empty tracker for a window of `capacity` samples.
    pub fn new(capacity: usize) -> (t: P95Tracker)
        ensures
            t.wf(),
            t.cap() == capacity,
            t.seen() == Seq::<u128>::empty(),
            t.window() == Seq::<u128>::empty(),
    {
        P95Tracker { data: Vec::new(), capacity, history: Ghost(Seq::empty()) }
    }

    /// The first index of the sorted window holding a value
    /// `>= value`, or the length.
    fn insertion_point(data: &Vec<u128>, value: u128) -> (pos: usize)
        ensures
            pos == insert_pos(data@, value),
    {
        let mut i: usize = 0;
        while i < data.len()
            invariant
                i <= data@.len(),
                forall|j: int| 0 <= j < i ==> data@[j] < value,
            decreases data@.len() - i,
        {
            if value <= data[i] {
                proof {
                    lemma_insert_pos_is(data@, value, i as int);
                }
                return i;
            }
            i = i + 1;
        }
        proof {
            lemma_insert_pos_is(data@, value, i as int);
        }
        i
    }

    /// Pushes one sample.
    ///
    /// While the window has room the sample enters it in sorted
    /// position; once full, the sample displaces the current maximum
    /// only when strictly smaller, and is discarded otherwise.
    pub fn push(&mut self, value: u128)
        requires
            old(self).wf(),
        ensures
            final(self).wf(),
            final(self).cap() == old(self).cap(),
            final(self).seen() == old(self).seen().push(value),
            final(self).window() == window_after(old(self).seen().push(value), old(self).cap()),
    {
        proof {
            lemma_window_after_wf(self.history@, self.capacity as nat);
            assert(self.history@.push(value).drop_last() =~= self.history@);
        }
        if self.data.len() < self.capacity {
            let pos = Self::insertion_point(&self.data, value);
            proof {
                lemma_insert_pos_props(self.data@, value);
            }
            self.data.insert(pos, value);
        } else if self.capacity > 0 {
            let biggest = self.data[self.data.len() - 1];
            if value < biggest {
                self.data.pop();
                proof {
                    assert(self.data@ =~= old(self).data@.drop_last());
                }
                let pos = Self::insertion_point(&self.data, value);
                proof {
                    lemma_insert_pos_props(self.data@, value);
                }
                self.data.insert(pos, value);
            }
        }
        self.history = Ghost(self.history@.push(value));
    }

    /// Whether the window has filled up to its capacity.
    pub fn has_enough_samples(&self) -> (full: bool)
        ensures
            full <==> self.window().len() == self.cap(),
    {
        self.data.len() == self.capacity
    }

    /// The 95th percentile of the window — the sample at index
    /// `ceil(0.95 * capacity) - 1` of the sorted window — once the
    /// window is full, and nothing before that.
    pub fn p95(&self) -> (r: Option<u128>)
        ensures
            r is Some <==> self.window().len() == self.cap() && self.cap() > 0,
            match r {
                Some(v) => v == self.window()[p95_index(self.cap() as int)],
                None => true,
            },
    {
        if self.capacity > 0 && self.data.len() == self.capacity {
            let len = self.data.len();
            let idx = len - len / 20 - 1;
            Some(self.data[idx])
        } else {
            None
        }
    }
}

/// `insert_pos` is the first index whose sample is not below `x`.
proof fn lemma_insert_pos_is(s: Seq<u128>, x: u128, k: int)
    requires
        0 <= k <= s.len(),
        forall|j: int| 0 <= j < k ==> s[j] < x,
        k < s.len() ==> x <= s[k],
    ensures
        insert_pos(s, x) == k,
    decreases s.len(),
{
    if s.len() > 0 && !(x <= s[0]) {
        assert(k > 0);
        assert(forall|j: int| 0 <= j < s.len() - 1 ==> s.skip(1)[j] == s[j + 1]);
        lemma_insert_pos_is(s.skip(1), x, k - 1);
    }
}

/// The tracker's window is the window of the smallest samples: any
/// sorted sequence that, below every threshold, holds as many
/// samples as the whole history up to the window size is the
/// tracker's window itself.  In particular, once full, `p95` returns
/// the 95th percentile of that exact window — so never more than it.
pub proof fn lemma_p95_of_smallest_window(t: &P95Tracker, exact: Seq<u128>)
    requires
        t.wf(),
        is_smallest_window(exact, t.seen(), t.cap()),
    ensures
        t.window() == exact,
        t.window().len() == t.cap() && t.cap() > 0 ==> t.window()[p95_index(t.cap() as int)]
            <= exact[p95_index(t.cap() as int)],
{
    lemma_smallest_window_unique(exact, t.seen(), t.cap());
}

} // verus!
