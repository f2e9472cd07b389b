use vstd::prelude::*;

verus! {

/// Capacity of the violation log.
pub const SLOTS: usize = 3;

/// One user's exam record.
#[derive(Clone, Copy, Debug, PartialEq, Eq)]
pub struct ExamMetadata {
    /// Set once the exam begins.
    pub start_time: Option<u64>,
    /// Set once the exam ends.
    pub end_time: Option<u64>,
    /// Violation timestamps, filled left to right.
    pub violations: [Option<u64>; 3],
    /// Whether every violation slot is occupied.
    pub kicked: bool,
}

/// Slot `i` is the first empty slot of `v`.
pub open spec fn is_first_free(v: Seq<Option<u64>>, i: int) -> bool {
    &&& 0 <= i < v.len()
    &&& v[i] is None
    &&& forall|j: int| 0 <= j < i ==> (#[trigger] v[j]) is Some
}

/// Every slot of `v` is occupied.
pub open spec fn all_filled(v: Seq<Option<u64>>) -> bool {
    forall|j: int| 0 <= j < v.len() ==> (#[trigger] v[j]) is Some
}

/// The log `v` after recording a violation at `t`: `t` goes into the first
/// empty slot, and a full log is left as it is.
pub open spec fn logged(v: Seq<Option<u64>>, t: u64) -> Seq<Option<u64>> {
    if all_filled(v) {
        v
    } else {
        v.update(choose|i: int| is_first_free(v, i), Some(t))
    }
}

/// Where slot `i` is the first empty one, logging writes there.
pub proof fn lemma_logged_at(v: Seq<Option<u64>>, i: int, t: u64)
    requires
        is_first_free(v, i),
    ensures
        !all_filled(v),
        logged(v, t) == v.update(i, Some(t)),
{
    assert(v[i] is None);
    let k = choose|k: int| is_first_free(v, k);
    if k < i {
        assert(v[k] is Some);
    } else if i < k {
        assert(v[i] is Some);
    }
}

impl ExamMetadata {
    /// The record of a user that was never written.
    pub open spec fn blank() -> ExamMetadata {
        ExamMetadata { start_time: None, end_time: None, violations: [None, None, None], kicked: false }
    }

    /// `kicked` agrees with the occupancy of the log.
    pub open spec fn wf(self) -> bool {
        self.kicked == all_filled(self.violations@)
    }

    /// This record with the exam started at `t`.
    pub open spec fn started(self, t: u64) -> ExamMetadata {
        ExamMetadata { start_time: Some(t), ..self }
    }

    /// This record with a violation at `t` logged and `kicked` recomputed.
    pub open spec fn violated(self, t: u64) -> ExamMetadata {
        let v = logged(self.violations@, t);
        ExamMetadata { violations: [v[0], v[1], v[2]], kicked: all_filled(v), ..self }
    }

    /// This record with the exam ended at `t`, where the exam has started
    /// strictly before `t`; `None` otherwise.
    pub open spec fn ended(self, t: u64) -> Option<ExamMetadata> {
        match self.start_time {
            Some(start) if start < t => Some(ExamMetadata { end_time: Some(t), ..self }),
            _ => None,
        }
    }

    /// The record for a user that was never written.
    pub fn new() -> (r: ExamMetadata)
        ensures
            r == ExamMetadata::blank(),
            r.wf(),
    {
        let r = ExamMetadata { start_time: None, end_time: None, violations: [None, None, None], kicked: false };
        assert(!all_filled(r.violations@)) by {
            assert(r.violations@[0] is None);
        }
        r
    }

    /// The record with the exam started at `start_time`; an earlier start is
    /// overwritten.
    pub fn with_start(&self, start_time: u64) -> (r: ExamMetadata)
        ensures
            r == self.started(start_time),
    {
        ExamMetadata { start_time: Some(start_time), ..*self }
    }

    /// The record with a violation at `violation_time` written into the first
    /// empty slot; a full log drops it. `kicked` is recomputed from the slots.
    pub fn with_violation(&self, violation_time: u64) -> (r: ExamMetadata)
        ensures
            r == self.violated(violation_time),
            r.violations@ == logged(self.violations@, violation_time),
            r.wf(),
            forall|i: int| 0 <= i < SLOTS && (#[trigger] self.violations@[i]) is Some
                ==> r.violations@[i] == self.violations@[i],
    {
        let mut violations = self.violations;
        let mut i: usize = 0;
        while i < SLOTS
            invariant_except_break
                i <= SLOTS,
                violations == self.violations,
                forall|j: int| 0 <= j < i ==> (#[trigger] self.violations@[j]) is Some,
            ensures
                all_filled(self.violations@) ==> violations == self.violations,
                !all_filled(self.violations@) ==> exists|k: int|
                    is_first_free(self.violations@, k)
                    && violations@ == self.violations@.update(k, Some(violation_time)),
            decreases SLOTS - i,
        {
            if violations[i].is_none() {
                violations[i] = Some(violation_time);
                assert(is_first_free(self.violations@, i as int));
                break;
            }
            i = i + 1;
        }
        proof {
            let v = self.violations@;
            if !all_filled(v) {
                let k = choose|k: int| is_first_free(v, k);
                assert forall|m: int| is_first_free(v, m) implies m == k by {
                    if m < k {
                        assert(v[m] is Some);
                    } else if k < m {
                        assert(v[k] is Some);
                    }
                }
                assert(violations@ == logged(v, violation_time));
            }
        }
        let mut full = true;
        let mut j: usize = 0;
        while j < SLOTS
            invariant
                j <= SLOTS,
                full == forall|m: int| 0 <= m < j ==> (#[trigger] violations@[m]) is Some,
            decreases SLOTS - j,
        {
            if violations[j].is_none() {
                full = false;
            }
            j = j + 1;
        }
        let r = ExamMetadata { violations, kicked: full, ..*self };
        proof {
            let v = logged(self.violations@, violation_time);
            assert(violations =~= [v[0], v[1], v[2]]);
        }
        r
    }

    /// The record with the exam ended at `end_time`, or `None` where the
    /// exam has not started or `end_time` is not after the start: the
    /// record is then left as it is.
    pub fn with_end(&self, end_time: u64) -> (r: Option<ExamMetadata>)
        ensures
            r == self.ended(end_time),
    {
        match self.start_time {
            Some(start) if start < end_time => Some(ExamMetadata { end_time: Some(end_time), ..*self }),
            _ => None,
        }
    }
}

impl Default for ExamMetadata {
    fn default() -> (r: ExamMetadata)
        ensures
            r == ExamMetadata::blank(),
    {
        ExamMetadata::new()
    }
}

} // verus!
