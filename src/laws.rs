//! Properties of the exam policy that hold across operations.
use vstd::prelude::*;

use crate::account::AccountId;
use crate::exam::{all_filled, lemma_logged_at, ExamMetadata};
use crate::proctoink::{after_end, after_start, after_violation, record_in, Proctoink};

verus! {

/// A user whose record was never written reads as the default record: no
/// start, no end, an empty violation log, and not kicked.
pub proof fn law_unwritten_user_reads_default(s: Proctoink, user: AccountId)
    requires
        !s@.contains_key(user),
    ensures
        record_in(s@, user) == ExamMetadata::blank(),
        record_in(s@, user).start_time is None,
        record_in(s@, user).end_time is None,
        record_in(s@, user).violations@ == seq![None::<u64>, None, None],
        !record_in(s@, user).kicked,
{
    assert(record_in(s@, user).violations@ =~= seq![None::<u64>, None, None]);
}

/// Starting an exam makes the start time read back as given, and starting it
/// again overwrites it.
pub proof fn law_start_reads_back_and_overwrites(
    m: Map<AccountId, ExamMetadata>,
    user: AccountId,
    t: u64,
    t2: u64,
)
    ensures
        record_in(after_start(m, user, t), user).start_time == Some(t),
        record_in(after_start(after_start(m, user, t), user, t2), user).start_time == Some(t2),
{
}

/// Once the log is full, a further violation changes neither the log nor
/// `kicked`.
pub proof fn law_full_log_drops_violation(meta: ExamMetadata, t: u64)
    requires
        meta.wf(),
        all_filled(meta.violations@),
    ensures
        meta.violated(t) == meta,
{
    let v = meta.violations@;
    assert(meta.violations =~= [v[0], v[1], v[2]]);
}

/// Three violations on a fresh user fill the log in order and kick the
/// user; a fourth leaves the record unchanged.
pub proof fn law_three_violations_fill_log(
    s: Proctoink,
    user: AccountId,
    t1: u64,
    t2: u64,
    t3: u64,
    t4: u64,
)
    requires
        !s@.contains_key(user),
    ensures
        ({
            let m3 = after_violation(after_violation(after_violation(s@, user, t1), user, t2), user, t3);
            &&& record_in(m3, user).violations@ == seq![Some(t1), Some(t2), Some(t3)]
            &&& record_in(m3, user).kicked
            &&& record_in(after_violation(m3, user, t4), user) == record_in(m3, user)
        }),
{
    let m1 = after_violation(s@, user, t1);
    let m2 = after_violation(m1, user, t2);
    let m3 = after_violation(m2, user, t3);
    lemma_fresh_violations(s, user, t1, t2, t3);
    law_full_log_drops_violation(record_in(m3, user), t4);
}

/// After exactly zero, one or two violations a fresh user is not kicked;
/// after exactly three it is, whatever the timestamps.
pub proof fn law_kicked_after_three(s: Proctoink, user: AccountId, t1: u64, t2: u64, t3: u64)
    requires
        !s@.contains_key(user),
    ensures
        ({
            let m1 = after_violation(s@, user, t1);
            let m2 = after_violation(m1, user, t2);
            let m3 = after_violation(m2, user, t3);
            &&& !record_in(s@, user).kicked
            &&& !record_in(m1, user).kicked
            &&& !record_in(m2, user).kicked
            &&& record_in(m3, user).kicked
        }),
{
    lemma_fresh_violations(s, user, t1, t2, t3);
}

/// Ending an exam that never started writes nothing, nor does ending it at
/// or before its start; ending it after its start sets the end time.
pub proof fn law_end_requires_later_start(m: Map<AccountId, ExamMetadata>, user: AccountId, t: u64)
    ensures
        record_in(m, user).start_time is None ==> after_end(m, user, t) == m,
        (record_in(m, user).start_time matches Some(start) && t <= start) ==> after_end(m, user, t)
            == m,
        (record_in(m, user).start_time matches Some(start) && start < t) ==> record_in(
            after_end(m, user, t),
            user,
        ).end_time == Some(t),
{
}

/// After a start at `start`, an end at `t` is recorded exactly when
/// `start < t`; otherwise the end time stays as it was.
pub proof fn law_end_after_start(m: Map<AccountId, ExamMetadata>, user: AccountId, start: u64, t: u64)
    ensures
        ({
            let ended = record_in(after_end(after_start(m, user, start), user, t), user);
            &&& start < t ==> ended.end_time == Some(t)
            &&& t <= start ==> ended.end_time == record_in(m, user).end_time
        }),
{
}

/// An operation on one user leaves every other user's record as it was.
pub proof fn law_users_independent(
    m: Map<AccountId, ExamMetadata>,
    user: AccountId,
    other: AccountId,
    t: u64,
)
    requires
        user != other,
    ensures
        record_in(after_start(m, user, t), other) == record_in(m, other),
        record_in(after_violation(m, user, t), other) == record_in(m, other),
        record_in(after_end(m, user, t), other) == record_in(m, other),
{
}

proof fn lemma_fresh_violations(s: Proctoink, user: AccountId, t1: u64, t2: u64, t3: u64)
    requires
        !s@.contains_key(user),
    ensures
        ({
            let m1 = after_violation(s@, user, t1);
            let m2 = after_violation(m1, user, t2);
            let m3 = after_violation(m2, user, t3);
            &&& record_in(m1, user).violations@ == seq![Some(t1), None, None]
            &&& !record_in(m1, user).kicked
            &&& record_in(m2, user).violations@ == seq![Some(t1), Some(t2), None]
            &&& !record_in(m2, user).kicked
            &&& record_in(m3, user).violations@ == seq![Some(t1), Some(t2), Some(t3)]
            &&& record_in(m3, user).kicked
            &&& record_in(m3, user).wf()
        }),
{
    let m1 = after_violation(s@, user, t1);
    let m2 = after_violation(m1, user, t2);
    let m3 = after_violation(m2, user, t3);
    let v0 = record_in(s@, user).violations@;
    assert(v0 =~= seq![None::<u64>, None, None]);
    lemma_logged_at(v0, 0, t1);
    let v1 = record_in(m1, user).violations@;
    assert(v1 =~= seq![Some(t1), None, None]);
    lemma_logged_at(v1, 1, t2);
    let v2 = record_in(m2, user).violations@;
    assert(v2 =~= seq![Some(t1), Some(t2), None]);
    lemma_logged_at(v2, 2, t3);
    let v3 = record_in(m3, user).violations@;
    assert(v3 =~= seq![Some(t1), Some(t2), Some(t3)]);
}

} // verus!
