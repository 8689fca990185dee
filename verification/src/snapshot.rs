//! On-demand summaries of the field: an immutable per-step record and a
//! sequential stream that advances the field one step per pull.

use vstd::prelude::*;
use crate::dynamics::{count_conscious, max_activity_cells, step_field, sum_cells};
use crate::reality::Reality;

verus! {

/// An immutable aggregate record of a field at one moment: step and time
/// counters, total and created density, conscious-cell statistics. Owned by
/// the caller that requested it; the field keeps no copy.
pub struct Snapshot {
    /// The number of evolution steps taken so far.
    pub step: u64,
    /// The elapsed simulated time, in fixed point.
    pub time: u128,
    /// The total density over all cells, in fixed point.
    pub total: u64,
    /// The density created above the vacuum baseline, in fixed point.
    pub created: i64,
    /// The number of cells at or above the integration threshold.
    pub conscious_count: usize,
    /// The largest normalized activity over all cells, in fixed point.
    pub max_activity: u64,
    /// Whether any cell is at or above the integration threshold.
    pub conscious: bool,
}

impl Reality {
    /// Materialize the aggregate state of the field right now. Read-only.
    pub fn snapshot(&self) -> (r: Snapshot)
        requires
            self.wf(),
        ensures
            r.step == self.spec_step(),
            r.time == self.spec_time(),
            r.total == sum_cells(self.cells()),
            r.created == sum_cells(self.cells()) - self.spec_vacuum() * self.cells().len(),
            r.conscious_count == count_conscious(self.cells()),
            r.max_activity == max_activity_cells(self.cells()),
            r.conscious == (count_conscious(self.cells()) > 0),
    {
        Snapshot {
            step: self.step(),
            time: self.time(),
            total: self.total_information(),
            created: self.information_created(),
            conscious_count: self.conscious_count(),
            max_activity: self.max_activity(),
            conscious: self.is_conscious(),
        }
    }
}

/// A sequential, demand-driven stream of snapshots: each pull performs
/// exactly one evolution step and summarizes the post-step field. Finite
/// when constructed with a maximum step bound, otherwise it ends only when
/// the caller stops pulling.
pub struct SnapshotStream {
    reality: Reality,
    remaining: Option<u64>,
}

impl SnapshotStream {
    /// The wrapped field.
    pub closed spec fn spec_reality(&self) -> Reality {
        self.reality
    }

    /// How many pulls are still answered; `None` means unbounded.
    pub closed spec fn spec_remaining(&self) -> Option<u64> {
        self.remaining
    }

    /// Well-formedness: the wrapped field is well formed.
    pub open spec fn wf(&self) -> bool {
        self.spec_reality().wf()
    }

    /// Wrap a field. `max_steps` bounds how many snapshots the stream hands
    /// out; `None` leaves it unbounded.
    pub fn new(reality: Reality, max_steps: Option<u64>) -> (r: SnapshotStream)
        requires
            reality.wf(),
        ensures
            r.wf(),
            r.spec_reality() == reality,
            r.spec_remaining() == max_steps,
    {
        SnapshotStream { reality, remaining: max_steps }
    }

    /// Perform exactly one evolution step and summarize the post-step field;
    /// `None` once the step bound is exhausted, leaving the field untouched.
    pub fn next_snapshot(&mut self) -> (r: Option<Snapshot>)
        requires
            old(self).wf(),
            old(self).spec_reality().spec_step() < u64::MAX,
        ensures
            final(self).wf(),
            match r {
                Some(s) => {
                    let stepped = final(self).spec_reality();
                    &&& old(self).spec_remaining() != Some(0u64)
                    &&& stepped.cells() == step_field(old(self).spec_reality().cells(),
                        old(self).spec_reality().spec_resolution(),
                        old(self).spec_reality().spec_diffusion(),
                        old(self).spec_reality().spec_dt())
                    &&& stepped.spec_step() == old(self).spec_reality().spec_step() + 1
                    &&& s.step == stepped.spec_step()
                    &&& s.time == stepped.spec_time()
                    &&& s.total == sum_cells(stepped.cells())
                    &&& s.created == sum_cells(stepped.cells()) - stepped.spec_vacuum()
                        * stepped.cells().len()
                    &&& s.conscious_count == count_conscious(stepped.cells())
                    &&& s.max_activity == max_activity_cells(stepped.cells())
                    &&& s.conscious == (count_conscious(stepped.cells()) > 0)
                    &&& final(self).spec_remaining() == (match old(self).spec_remaining() {
                        Some(b) => Some((b - 1) as u64),
                        None => None::<u64>,
                    })
                },
                None => {
                    &&& old(self).spec_remaining() == Some(0u64)
                    &&& *final(self) == *old(self)
                },
            },
    {
        match self.remaining {
            Some(b) => {
                if b == 0 {
                    return None;
                }
                self.remaining = Some(b - 1);
            },
            None => {},
        }
        self.reality.evolve();
        Some(self.reality.snapshot())
    }

    /// Hand the wrapped field back.
    pub fn into_reality(self) -> (r: Reality)
        ensures
            r == self.spec_reality(),
    {
        self.reality
    }
}

} // verus!
