//! End-of-run report extraction.
//!
//! After the monitored run finishes, the reporter reads one store and keeps,
//! for every operation name with at least one recorded sample, the name and
//! its full sample sequence, in store order. Operations that were never
//! pushed to contribute nothing. The arithmetic and geometric means of each
//! kept sequence are floating-point work and are computed by the caller
//! from the raw tick values returned here.

use vstd::prelude::*;

verus! {

/// One report line's worth of data: an operation name and every duration
/// recorded under it, in push order, as raw cycle-counter ticks.
#[derive(Debug)]
pub struct ReportEntry {
    pub name: String,
    pub samples: Vec<u64>,
}

/// The pair of views a report entry carries.
pub open spec fn entry_view(e: ReportEntry) -> (Seq<char>, Seq<u64>) {
    (e.name@, e.samples@)
}

/// What a report holds: the `(name, samples)` pairs of exactly those
/// positions whose sample sequence is non-empty, in store order.
pub open spec fn spec_report(names: Seq<Seq<char>>, samples: Seq<Seq<u64>>) -> Seq<
    (Seq<char>, Seq<u64>),
>
    decreases names.len(),
{
    if names.len() == 0 || samples.len() == 0 {
        Seq::empty()
    } else {
        let rest = spec_report(names.drop_last(), samples.drop_last());
        if samples.last().len() > 0 {
            rest.push((names.last(), samples.last()))
        } else {
            rest
        }
    }
}

/// Every position with at least one sample gets a report line carrying
/// that name and exactly its samples.
pub proof fn lemma_report_complete(names: Seq<Seq<char>>, samples: Seq<Seq<u64>>, i: int)
    requires
        names.len() == samples.len(),
        0 <= i < names.len(),
        samples[i].len() > 0,
    ensures
        spec_report(names, samples).contains((names[i], samples[i])),
    decreases names.len(),
{
    let rest = spec_report(names.drop_last(), samples.drop_last());
    if i == names.len() - 1 {
        let r = spec_report(names, samples);
        assert(r[r.len() - 1] == (names[i], samples[i]));
    } else {
        lemma_report_complete(names.drop_last(), samples.drop_last(), i);
        let k = choose|k: int|
            0 <= k < rest.len() && rest[k] == (names.drop_last()[i], samples.drop_last()[i]);
        assert(spec_report(names, samples)[k] == (names[i], samples[i]));
    }
}

/// Every report line comes from some position with at least one sample and
/// carries that position's name and samples unchanged.
pub proof fn lemma_report_sound(names: Seq<Seq<char>>, samples: Seq<Seq<u64>>)
    requires
        names.len() == samples.len(),
    ensures
        forall|k: int|
            0 <= k < spec_report(names, samples).len() ==> exists|i: int|
                0 <= i < names.len() && samples[i].len() > 0 && #[trigger] spec_report(
                    names,
                    samples,
                )[k] == (names[i], samples[i]),
    decreases names.len(),
{
    if names.len() == 0 {
    } else {
        lemma_report_sound(names.drop_last(), samples.drop_last());
        let r = spec_report(names, samples);
        let rest = spec_report(names.drop_last(), samples.drop_last());
        assert forall|k: int| 0 <= k < r.len() implies exists|i: int|
            0 <= i < names.len() && samples[i].len() > 0 && #[trigger] r[k] == (
            names[i],
            samples[i],
        ) by {
            if k < rest.len() {
                let i = choose|i: int|
                    0 <= i < names.drop_last().len() && samples.drop_last()[i].len() > 0
                        && rest[k] == (names.drop_last()[i], samples.drop_last()[i]);
                assert(r[k] == (names[i], samples[i]));
            } else {
                let last: int = names.len() - 1;
                assert(r[k] == (names[last], samples[last]));
            }
        }
    }
}

/// When no name owns two positions — as in every store built from the
/// registry — no name gets two report lines: together with completeness and
/// soundness, each operation with at least one sample has exactly one line.
pub proof fn lemma_report_names_unique(names: Seq<Seq<char>>, samples: Seq<Seq<u64>>)
    requires
        names.len() == samples.len(),
        forall|i: int, j: int| 0 <= i < j < names.len() ==> names[i] != names[j],
    ensures
        forall|k1: int, k2: int|
            0 <= k1 < k2 < spec_report(names, samples).len() ==> (#[trigger] spec_report(
                names,
                samples,
            )[k1]).0 != (#[trigger] spec_report(names, samples)[k2]).0,
    decreases names.len(),
{
    if names.len() > 0 {
        lemma_report_names_unique(names.drop_last(), samples.drop_last());
        lemma_report_sound(names.drop_last(), samples.drop_last());
        let r = spec_report(names, samples);
        let rest = spec_report(names.drop_last(), samples.drop_last());
        let last: int = names.len() - 1;
        assert forall|k1: int, k2: int| 0 <= k1 < k2 < r.len() implies (#[trigger] r[k1]).0 != (
        #[trigger] r[k2]).0 by {
            if k2 < rest.len() {
                assert(r[k1] == rest[k1] && r[k2] == rest[k2]);
            } else if samples.last().len() > 0 && k2 == rest.len() {
                let i = choose|i: int|
                    0 <= i < names.drop_last().len() && samples.drop_last()[i].len() > 0
                        && rest[k1] == (names.drop_last()[i], samples.drop_last()[i]);
                assert(rest[k1].0 == names[i]);
                assert(names[i] != names[last]);
                assert(r[k2].0 == names[last]);
            }
        }
    }
}

/// A store nothing was ever pushed to produces an empty report.
pub proof fn lemma_report_empty(names: Seq<Seq<char>>, samples: Seq<Seq<u64>>)
    requires
        names.len() == samples.len(),
        forall|i: int| 0 <= i < samples.len() ==> samples[i].len() == 0,
    ensures
        spec_report(names, samples).len() == 0,
    decreases names.len(),
{
    if names.len() > 0 {
        lemma_report_empty(names.drop_last(), samples.drop_last());
    }
}

} // verus!
