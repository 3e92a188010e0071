//! The per-thread timing store.
//!
//! A `TimingStore` owns, for every registered operation name, the ordered
//! sequence of durations recorded under that name, measured in raw
//! cycle-counter ticks. Each thread that records timings owns exactly one
//! store; nothing here is shared, so a store only ever sees the pushes its
//! own thread issued, in the order it issued them.

use vstd::prelude::*;

use crate::registry::lemma_op_names_distinct;
use crate::registry::op_names;
use crate::registry::registry_names;
use crate::report::entry_view;
use crate::report::lemma_report_complete;
use crate::report::lemma_report_names_unique;
use crate::report::lemma_report_sound;
use crate::report::spec_report;
use crate::report::ReportEntry;
use crate::TimingError;

verus! {

/// The mathematical content of a store: the registered names, in registry
/// order, and for each name (by position) the recorded tick deltas, in
/// push order.
pub struct StoreView {
    pub names: Seq<Seq<char>>,
    pub samples: Seq<Seq<u64>>,
}

impl StoreView {
    /// Every name has exactly one sample sequence, by position.
    pub open spec fn wf(self) -> bool {
        self.names.len() == self.samples.len()
    }

    /// Whether `name` belongs to the store's closed name set.
    pub open spec fn is_registered(self, name: Seq<char>) -> bool {
        self.names.contains(name)
    }

    /// The position of `name` in the store: its first occurrence in the
    /// name sequence. Meaningful only when `name` is registered.
    pub open spec fn op_index(self, name: Seq<char>) -> int {
        self.names.index_of_first(name).unwrap()
    }

    /// The recorded durations for `name`, oldest first. Meaningful only
    /// when `name` is registered.
    pub open spec fn samples_for(self, name: Seq<char>) -> Seq<u64> {
        self.samples[self.op_index(name)]
    }
}

/// The effect of recording one tick delta under a registered `name`:
/// that name's sample sequence grows by the new value at its end, and
/// everything else is left as it was.
pub open spec fn spec_push(v: StoreView, name: Seq<char>, tick: u64) -> StoreView {
    let i = v.op_index(name);
    StoreView { names: v.names, samples: v.samples.update(i, v.samples[i].push(tick)) }
}

/// A registered name's position is in bounds, carries that name, and is the
/// first position to do so.
pub proof fn lemma_op_index(v: StoreView, name: Seq<char>)
    requires
        v.is_registered(name),
    ensures
        0 <= v.op_index(name) < v.names.len(),
        v.names[v.op_index(name)] == name,
        forall|j: int| 0 <= j < v.op_index(name) ==> v.names[j] != name,
{
    v.names.index_of_first_ensures(name);
}

/// Recording under one registered name changes that name's samples alone:
/// the name set is untouched, the target sequence grows by exactly the
/// pushed value, and every other position keeps its samples.
pub proof fn lemma_spec_push(v: StoreView, name: Seq<char>, tick: u64)
    requires
        v.wf(),
        v.is_registered(name),
    ensures
        spec_push(v, name, tick).wf(),
        spec_push(v, name, tick).names == v.names,
        spec_push(v, name, tick).samples.len() == v.samples.len(),
        spec_push(v, name, tick).samples_for(name) == v.samples_for(name).push(tick),
        forall|j: int|
            0 <= j < v.samples.len() && j != v.op_index(name)
                ==> spec_push(v, name, tick).samples[j] == v.samples[j],
{
    lemma_op_index(v, name);
}

/// A per-thread mapping from the closed set of operation names to the
/// durations recorded under each, in push order.
pub struct TimingStore {
    names: Vec<String>,
    samples: Vec<Vec<u64>>,
}

impl View for TimingStore {
    type V = StoreView;

    closed spec fn view(&self) -> StoreView {
        StoreView {
            names: self.names@.map_values(|s: String| s@),
            samples: self.samples@.map_values(|v: Vec<u64>| v@),
        }
    }
}

impl TimingStore {
    /// A fresh store: every registered operation name, in registry order,
    /// each with an empty sample sequence. The name set never changes after
    /// this point.
    pub fn new() -> (s: TimingStore)
        ensures
            s@.wf(),
            s@.names == op_names(),
            s@.samples.len() == op_names().len(),
            forall|i: int| 0 <= i < s@.samples.len() ==> s@.samples[i] == Seq::<u64>::empty(),
    {
        let names = registry_names();
        let n = names.len();
        let mut samples: Vec<Vec<u64>> = Vec::new();
        let mut i: usize = 0;
        while i < n
            invariant
                i <= n,
                samples@.len() == i,
                forall|j: int| 0 <= j < i ==> samples@[j]@ == Seq::<u64>::empty(),
            decreases n - i,
        {
            samples.push(Vec::new());
            i += 1;
        }
        let s = TimingStore { names, samples };
        proof {
            assert forall|k: int| 0 <= k < s@.samples.len() implies s@.samples[k]
                == Seq::<u64>::empty() by {
                assert(s@.samples[k] == s.samples@[k]@);
            }
        }
        s
    }

    /// The position of `name` in this store, if it is registered.
    fn find_op(&self, name: &str) -> (r: Option<usize>)
        ensures
            match r {
                Some(i) => self@.names.index_of_first(name@) == Some(i as int),
                None => self@.names.index_of_first(name@) is None,
            },
    {
        let owned: String = name.to_owned();
        let n = self.names.len();
        let mut i: usize = 0;
        while i < n
            invariant
                i <= n,
                n == self.names@.len(),
                owned@ == name@,
                forall|j: int| 0 <= j < i ==> self@.names[j] != name@,
            decreases n - i,
        {
            if self.names[i] == owned {
                proof {
                    assert(self@.names[i as int] == name@);
                    self@.names.index_of_first_ensures(name@);
                }
                return Some(i);
            }
            proof {
                assert(self@.names[i as int] == self.names@[i as int]@);
            }
            i += 1;
        }
        proof {
            self@.names.index_of_first_ensures(name@);
        }
        None
    }

    /// Records the elapsed time between two cycle-counter readings under
    /// `name`: the tick delta `end - start` is appended to `name`'s sample
    /// sequence. A name outside the closed registry records nothing and is
    /// rejected as a caller contract violation; the store is then unchanged.
    pub fn push_result(&mut self, name: &str, start: u64, end: u64) -> (r: Result<
        (),
        TimingError,
    >)
        requires
            old(self)@.wf(),
            start <= end,
        ensures
            final(self)@.wf(),
            final(self)@.names == old(self)@.names,
            old(self)@.is_registered(name@) ==> {
                &&& r == Ok::<(), TimingError>(())
                &&& final(self)@ == spec_push(old(self)@, name@, (end - start) as u64)
            },
            !old(self)@.is_registered(name@) ==> {
                &&& r == Err::<(), TimingError>(TimingError::UnknownOperation)
                &&& final(self)@ == old(self)@
            },
    {
        proof {
            old(self)@.names.index_of_first_ensures(name@);
        }
        match self.find_op(name) {
            Some(i) => {
                let ticks: u64 = end - start;
                self.samples[i].push(ticks);
                proof {
                    assert(self@.samples =~= spec_push(old(self)@, name@, ticks).samples);
                    assert(self@ =~= spec_push(old(self)@, name@, ticks));
                }
                Ok(())
            },
            None => Err(TimingError::UnknownOperation),
        }
    }

    /// How many operation names the store holds.
    pub fn len(&self) -> (n: usize)
        ensures
            n == self@.names.len(),
    {
        self.names.len()
    }

    /// Extracts the report data: one entry per operation with at least one
    /// recorded sample, in store order, carrying the operation's name and
    /// its full sample sequence; operations never pushed to yield nothing.
    pub fn report_entries(&self) -> (r: Vec<ReportEntry>)
        requires
            self@.wf(),
        ensures
            r@.len() == spec_report(self@.names, self@.samples).len(),
            forall|k: int|
                0 <= k < r@.len() ==> entry_view(#[trigger] r@[k]) == spec_report(
                    self@.names,
                    self@.samples,
                )[k],
    {
        let n = self.names.len();
        let mut out: Vec<ReportEntry> = Vec::new();
        let mut i: usize = 0;
        while i < n
            invariant
                i <= n,
                n == self.names@.len(),
                n == self.samples@.len(),
                self@.wf(),
                out@.len() == spec_report(
                    self@.names.take(i as int),
                    self@.samples.take(i as int),
                ).len(),
                forall|k: int|
                    0 <= k < out@.len() ==> entry_view(#[trigger] out@[k]) == spec_report(
                        self@.names.take(i as int),
                        self@.samples.take(i as int),
                    )[k],
            decreases n - i,
        {
            proof {
                assert(self@.names.take(i + 1).drop_last() =~= self@.names.take(i as int));
                assert(self@.samples.take(i + 1).drop_last() =~= self@.samples.take(i as int));
                assert(self@.names.take(i + 1).last() == self@.names[i as int]);
                assert(self@.samples.take(i + 1).last() == self@.samples[i as int]);
                assert(self@.samples[i as int] == self.samples@[i as int]@);
            }
            if self.samples[i].len() > 0 {
                let e = ReportEntry {
                    name: self.names[i].clone(),
                    samples: copy_samples(&self.samples[i]),
                };
                proof {
                    assert(entry_view(e) == (self@.names[i as int], self@.samples[i as int]));
                }
                out.push(e);
            }
            i += 1;
        }
        proof {
            assert(self@.names.take(n as int) =~= self@.names);
            assert(self@.samples.take(n as int) =~= self@.samples);
        }
        out
    }
}

/// A fresh vector with the same values.
fn copy_samples(v: &Vec<u64>) -> (r: Vec<u64>)
    ensures
        r@ == v@,
{
    let n = v.len();
    let mut r: Vec<u64> = Vec::new();
    let mut i: usize = 0;
    while i < n
        invariant
            i <= n,
            n == v@.len(),
            r@ == v@.take(i as int),
        decreases n - i,
    {
        r.push(v[i]);
        proof {
            assert(v@.take(i + 1) =~= v@.take(i as int).push(v@[i as int]));
        }
        i += 1;
    }
    proof {
        assert(v@.take(n as int) =~= v@);
    }
    r
}

/// The store after a whole sequence of pushes under one name, oldest push
/// first.
pub open spec fn fold_pushes(v: StoreView, name: Seq<char>, ticks: Seq<u64>) -> StoreView
    decreases ticks.len(),
{
    if ticks.len() == 0 {
        v
    } else {
        fold_pushes(spec_push(v, name, ticks[0]), name, ticks.drop_first())
    }
}

/// Any sequence of pushes under a registered name appends exactly those
/// values, in push order, to that name's sample sequence, and leaves the
/// name set and every other sample sequence unchanged.
pub proof fn lemma_pushes_accumulate(v: StoreView, name: Seq<char>, ticks: Seq<u64>)
    requires
        v.wf(),
        v.is_registered(name),
    ensures
        fold_pushes(v, name, ticks).wf(),
        fold_pushes(v, name, ticks).names == v.names,
        fold_pushes(v, name, ticks).samples_for(name) == v.samples_for(name) + ticks,
        forall|j: int|
            0 <= j < v.samples.len() && j != v.op_index(name) ==> fold_pushes(
                v,
                name,
                ticks,
            ).samples[j] == v.samples[j],
    decreases ticks.len(),
{
    if ticks.len() == 0 {
        assert(v.samples_for(name) + ticks =~= v.samples_for(name));
    } else {
        lemma_spec_push(v, name, ticks[0]);
        let v1 = spec_push(v, name, ticks[0]);
        lemma_pushes_accumulate(v1, name, ticks.drop_first());
        assert(v.samples_for(name).push(ticks[0]) + ticks.drop_first() =~= v.samples_for(name)
            + ticks);
    }
}

/// On a store whose sample sequences are all still empty, a sequence of
/// `k` pushes under a registered name leaves that name with exactly those
/// `k` values, in push order.
pub proof fn lemma_push_count_and_order(v: StoreView, name: Seq<char>, ticks: Seq<u64>)
    requires
        v.wf(),
        v.is_registered(name),
        forall|i: int| 0 <= i < v.samples.len() ==> v.samples[i] == Seq::<u64>::empty(),
    ensures
        fold_pushes(v, name, ticks).samples_for(name) == ticks,
        fold_pushes(v, name, ticks).samples_for(name).len() == ticks.len(),
{
    lemma_op_index(v, name);
    lemma_pushes_accumulate(v, name, ticks);
    assert(v.samples_for(name) + ticks =~= ticks);
}

/// On a store carrying the registry's names, the report holds exactly one
/// line per operation with at least one recorded sample: one line at the
/// operation's position, no line that does not come from such a position,
/// never two lines under one name, and none at all for operations that were
/// never pushed to.
pub proof fn lemma_report_exact_for_registry(v: StoreView)
    requires
        v.wf(),
        v.names == op_names(),
    ensures
        forall|i: int|
            0 <= i < v.names.len() && v.samples[i].len() > 0 ==> spec_report(
                v.names,
                v.samples,
            ).contains((v.names[i], v.samples[i])),
        forall|k: int|
            0 <= k < spec_report(v.names, v.samples).len() ==> exists|i: int|
                0 <= i < v.names.len() && v.samples[i].len() > 0 && #[trigger] spec_report(
                    v.names,
                    v.samples,
                )[k] == (v.names[i], v.samples[i]),
        forall|k1: int, k2: int|
            0 <= k1 < k2 < spec_report(v.names, v.samples).len() ==> (#[trigger] spec_report(
                v.names,
                v.samples,
            )[k1]).0 != (#[trigger] spec_report(v.names, v.samples)[k2]).0,
{
    lemma_op_names_distinct();
    lemma_report_sound(v.names, v.samples);
    lemma_report_names_unique(v.names, v.samples);
    assert forall|i: int| 0 <= i < v.names.len() && v.samples[i].len() > 0 implies spec_report(
        v.names,
        v.samples,
    ).contains((v.names[i], v.samples[i])) by {
        lemma_report_complete(v.names, v.samples, i);
    }
}

/// Stores owned by different threads accumulate independently: after each
/// store takes its own pushes, each name's sample count reflects only the
/// pushes issued through that store, whatever the other store received.
pub proof fn lemma_thread_isolation(
    a: StoreView,
    b: StoreView,
    name: Seq<char>,
    ticks_a: Seq<u64>,
    ticks_b: Seq<u64>,
)
    requires
        a.wf(),
        b.wf(),
        a.is_registered(name),
        b.is_registered(name),
    ensures
        fold_pushes(a, name, ticks_a).samples_for(name).len() == a.samples_for(name).len()
            + ticks_a.len(),
        fold_pushes(b, name, ticks_b).samples_for(name).len() == b.samples_for(name).len()
            + ticks_b.len(),
{
    lemma_pushes_accumulate(a, name, ticks_a);
    lemma_pushes_accumulate(b, name, ticks_b);
}

} // verus!
