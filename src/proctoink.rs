use vstd::prelude::*;

use crate::account::AccountId;
use crate::exam::ExamMetadata;

verus! {

/// The record that operations on `user` start from in `m`: the stored one,
/// or the default record.
pub open spec fn record_in(m: Map<AccountId, ExamMetadata>, user: AccountId) -> ExamMetadata {
    if m.contains_key(user) {
        m[user]
    } else {
        ExamMetadata::blank()
    }
}

/// The records `m` after `user`'s exam starts at `t`.
pub open spec fn after_start(m: Map<AccountId, ExamMetadata>, user: AccountId, t: u64) -> Map<
    AccountId,
    ExamMetadata,
> {
    m.insert(user, record_in(m, user).started(t))
}

/// The records `m` after a violation of `user` at `t`.
pub open spec fn after_violation(m: Map<AccountId, ExamMetadata>, user: AccountId, t: u64) -> Map<
    AccountId,
    ExamMetadata,
> {
    m.insert(user, record_in(m, user).violated(t))
}

/// The records `m` after an attempt to end `user`'s exam at `t`.
pub open spec fn after_end(m: Map<AccountId, ExamMetadata>, user: AccountId, t: u64) -> Map<
    AccountId,
    ExamMetadata,
> {
    match record_in(m, user).ended(t) {
        Some(meta) => m.insert(user, meta),
        None => m,
    }
}

/// Exam records by user: each user's record is addressed on its own, reads
/// as the default record until first written, and is replaced whole on each
/// write. No record is ever removed.
pub struct Proctoink {
    entries: Vec<(AccountId, ExamMetadata)>,
}

impl View for Proctoink {
    type V = Map<AccountId, ExamMetadata>;

    closed spec fn view(&self) -> Map<AccountId, ExamMetadata> {
        Map::new(
            |k: AccountId| exists|i: int| 0 <= i < self.entries.len() && self.entries@[i].0 == k,
            |k: AccountId|
                self.entries@[choose|i: int| 0 <= i < self.entries.len() && self.entries@[i].0 == k].1,
        )
    }
}

impl Proctoink {
    /// Each user appears once, and every stored record is well formed.
    pub closed spec fn wf(self) -> bool {
        &&& forall|i: int, j: int|
            0 <= i < j < self.entries.len() ==> (#[trigger] self.entries@[i]).0
                != (#[trigger] self.entries@[j]).0
        &&& forall|i: int| 0 <= i < self.entries.len() ==> (#[trigger] self.entries@[i]).1.wf()
    }

    proof fn lemma_entry(self, i: int)
        requires
            self.wf(),
            0 <= i < self.entries.len(),
        ensures
            self@.contains_key(self.entries@[i].0),
            self@[self.entries@[i].0] == self.entries@[i].1,
    {
        let k = self.entries@[i].0;
        assert(0 <= i < self.entries.len() && self.entries@[i].0 == k);
        let j = choose|j: int| 0 <= j < self.entries.len() && self.entries@[j].0 == k;
        if j < i {
            assert(self.entries@[j].0 != self.entries@[i].0);
        } else if i < j {
            assert(self.entries@[i].0 != self.entries@[j].0);
        }
    }

    /// Every stored record is well formed.
    pub proof fn lemma_records_wf(self)
        requires
            self.wf(),
        ensures
            forall|k: AccountId| #[trigger] self@.contains_key(k) ==> self@[k].wf(),
    {
        assert forall|k: AccountId| #[trigger] self@.contains_key(k) implies self@[k].wf() by {
            let i = choose|i: int| 0 <= i < self.entries.len() && self.entries@[i].0 == k;
            self.lemma_entry(i);
        }
    }

    /// A store with no records.
    pub fn new() -> (r: Proctoink)
        ensures
            r.wf(),
            r@ == Map::<AccountId, ExamMetadata>::empty(),
    {
        let r = Proctoink { entries: Vec::new() };
        assert(r@ =~= Map::<AccountId, ExamMetadata>::empty());
        r
    }

    /// The index of `user`'s entry, if stored.
    fn position(&self, user: &AccountId) -> (r: Option<usize>)
        ensures
            match r {
                Some(i) => i < self.entries.len() && self.entries@[i as int].0 == *user,
                None => forall|i: int| 0 <= i < self.entries.len() ==> self.entries@[i].0 != *user,
            },
    {
        let mut i: usize = 0;
        while i < self.entries.len()
            invariant
                i <= self.entries.len(),
                forall|j: int| 0 <= j < i ==> self.entries@[j].0 != *user,
            decreases self.entries.len() - i,
        {
            if self.entries[i].0.same_as(user) {
                return Some(i);
            }
            i = i + 1;
        }
        None
    }

    /// The stored record of `user`, or `None` if it was never written.
    pub fn get_metadata(&self, user: AccountId) -> (r: Option<ExamMetadata>)
        requires
            self.wf(),
        ensures
            r == (if self@.contains_key(user) { Some(self@[user]) } else { None::<ExamMetadata> }),
    {
        match self.position(&user) {
            Some(i) => {
                proof {
                    self.lemma_entry(i as int);
                }
                Some(self.entries[i].1)
            },
            None => None,
        }
    }

    /// `user`'s stored record, or the default record.
    fn current_record(&self, user: AccountId) -> (r: ExamMetadata)
        requires
            self.wf(),
        ensures
            r == record_in(self@, user),
            r.wf(),
    {
        proof {
            self.lemma_records_wf();
        }
        match self.get_metadata(user) {
            Some(meta) => meta,
            None => ExamMetadata::new(),
        }
    }

    /// Stores `record` as `user`'s record, replacing any earlier one whole.
    fn upsert(&mut self, user: AccountId, record: ExamMetadata)
        requires
            old(self).wf(),
            record.wf(),
        ensures
            final(self).wf(),
            final(self)@ == old(self)@.insert(user, record),
    {
        let ghost before = *self;
        match self.position(&user) {
            Some(i) => {
                self.entries[i] = (user, record);
                assert(self@ =~= before@.insert(user, record)) by {
                    assert forall|k: AccountId| #[trigger] self@.contains_key(k)
                        == before@.insert(user, record).contains_key(k) by {
                        if before@.contains_key(k) {
                            let j = choose|j: int| 0 <= j < before.entries.len() && before.entries@[j].0 == k;
                            assert(self.entries@[j].0 == k);
                        }
                        if self@.contains_key(k) {
                            let j = choose|j: int| 0 <= j < self.entries.len() && self.entries@[j].0 == k;
                            if j != i {
                                assert(before.entries@[j].0 == k);
                            }
                        }
                    }
                    assert forall|k: AccountId| #[trigger] self@.contains_key(k)
                        implies self@[k] == before@.insert(user, record)[k] by {
                        let j = choose|j: int| 0 <= j < self.entries.len() && self.entries@[j].0 == k;
                        self.lemma_entry(j);
                        if j != i as int {
                            before.lemma_entry(j);
                        }
                    }
                }
            },
            None => {
                self.entries.push((user, record));
                let ghost n = before.entries.len() as int;
                assert(self@ =~= before@.insert(user, record)) by {
                    assert forall|k: AccountId| #[trigger] self@.contains_key(k)
                        == before@.insert(user, record).contains_key(k) by {
                        if before@.contains_key(k) {
                            let j = choose|j: int| 0 <= j < before.entries.len() && before.entries@[j].0 == k;
                            assert(self.entries@[j].0 == k);
                        }
                        if self@.contains_key(k) {
                            let j = choose|j: int| 0 <= j < self.entries.len() && self.entries@[j].0 == k;
                            if j != n {
                                assert(before.entries@[j].0 == k);
                            }
                        }
                        if k == user {
                            assert(self.entries@[n].0 == k);
                        }
                    }
                    assert forall|k: AccountId| #[trigger] self@.contains_key(k)
                        implies self@[k] == before@.insert(user, record)[k] by {
                        let j = choose|j: int| 0 <= j < self.entries.len() && self.entries@[j].0 == k;
                        self.lemma_entry(j);
                        if j != n {
                            before.lemma_entry(j);
                        }
                    }
                }
            },
        }
    }

    /// Starts `user`'s exam at `start_time`; an earlier start is overwritten.
    pub fn set_start(&mut self, user: AccountId, start_time: u64)
        requires
            old(self).wf(),
        ensures
            final(self).wf(),
            final(self)@ == after_start(old(self)@, user, start_time),
    {
        let meta = self.current_record(user);
        self.upsert(user, meta.with_start(start_time));
    }

    /// Logs a violation of `user` at `violation_time` into the first empty
    /// slot, dropping it when the log is full, and recomputes `kicked`. The
    /// record is written in either case.
    pub fn add_violation(&mut self, user: AccountId, violation_time: u64)
        requires
            old(self).wf(),
        ensures
            final(self).wf(),
            final(self)@ == after_violation(old(self)@, user, violation_time),
    {
        let meta = self.current_record(user);
        self.upsert(user, meta.with_violation(violation_time));
    }

    /// Ends `user`'s exam at `end_time` where it started strictly before
    /// `end_time`; otherwise nothing is written.
    pub fn set_end(&mut self, user: AccountId, end_time: u64)
        requires
            old(self).wf(),
        ensures
            final(self).wf(),
            final(self)@ == after_end(old(self)@, user, end_time),
    {
        let meta = self.current_record(user);
        if let Some(ended) = meta.with_end(end_time) {
            self.upsert(user, ended);
        }
    }

    /// When `user`'s exam started, if it has.
    pub fn get_start_time(&self, user: AccountId) -> (r: Option<u64>)
        requires
            self.wf(),
        ensures
            r == record_in(self@, user).start_time,
    {
        match self.get_metadata(user) {
            Some(meta) => meta.start_time,
            None => None,
        }
    }

    /// When `user`'s exam ended, if it has.
    pub fn get_end_time(&self, user: AccountId) -> (r: Option<u64>)
        requires
            self.wf(),
        ensures
            r == record_in(self@, user).end_time,
    {
        match self.get_metadata(user) {
            Some(meta) => meta.end_time,
            None => None,
        }
    }

    /// `user`'s violation log, all slots empty if never written.
    pub fn get_violation_times(&self, user: AccountId) -> (r: [Option<u64>; 3])
        requires
            self.wf(),
        ensures
            r == record_in(self@, user).violations,
    {
        match self.get_metadata(user) {
            Some(meta) => meta.violations,
            None => [None, None, None],
        }
    }

    /// Whether `user` was kicked for filling the violation log.
    pub fn is_kicked(&self, user: AccountId) -> (r: bool)
        requires
            self.wf(),
        ensures
            r == record_in(self@, user).kicked,
    {
        match self.get_metadata(user) {
            Some(meta) => meta.kicked,
            None => false,
        }
    }
}

} // verus!
