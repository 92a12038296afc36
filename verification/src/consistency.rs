//! The invariants that tie a project to its time-track entries, and the
//! laws showing that every engine operation preserves them.
//!
//! A store is *consistent* when every project is Active exactly when it has
//! one in-progress entry (and Inactive when it has none), its stored
//! aggregate equals the sum of its finished entries' durations, and every
//! entry is owned by its project's owner.

use vstd::prelude::*;

use crate::project_model::{Project, ProjectStatus};
use crate::project_service::{find_project, lemma_find_project_from, project_matches};
use crate::time_track_model::{TimeTrack, TimeTrackStatus};
use crate::time_track_service::{
    find_in_progress, in_progress_matches, lemma_find_in_progress_from,
};

verus! {

/// What `e` adds to the aggregate duration of project `pid`: its duration
/// when it is a finished entry of that project, else nothing.
pub open spec fn finished_contrib(e: TimeTrack, pid: Seq<char>) -> int {
    if e.project_id@ == pid && e.status is Finished {
        e.total_duration as int
    } else {
        0
    }
}

/// The sum of the durations of the finished entries of project `pid`.
pub open spec fn finished_sum(ts: Seq<TimeTrack>, pid: Seq<char>) -> int
    decreases ts.len(),
{
    if ts.len() == 0 {
        0
    } else {
        finished_sum(ts.drop_last(), pid) + finished_contrib(ts.last(), pid)
    }
}

/// What `e` adds to the number of in-progress entries of project `pid`.
pub open spec fn in_progress_contrib(e: TimeTrack, pid: Seq<char>) -> int {
    if e.project_id@ == pid && e.status is InProgress {
        1
    } else {
        0
    }
}

/// The number of in-progress entries of project `pid`.
pub open spec fn in_progress_count(ts: Seq<TimeTrack>, pid: Seq<char>) -> int
    decreases ts.len(),
{
    if ts.len() == 0 {
        0
    } else {
        in_progress_count(ts.drop_last(), pid) + in_progress_contrib(ts.last(), pid)
    }
}

/// The two per-project invariants, plus entry ownership: a project is
/// Active exactly when one in-progress entry exists for it, its stored
/// aggregate is the sum of its finished entries' durations, and each of its
/// entries was created by its owner.
pub open spec fn project_consistent(p: Project, ts: Seq<TimeTrack>) -> bool {
    &&& p.status is Active ==> in_progress_count(ts, p.id@) == 1
    &&& p.status is Inactive ==> in_progress_count(ts, p.id@) == 0
    &&& p.total_duration == finished_sum(ts, p.id@)
    &&& forall|j: int|
        0 <= j < ts.len() && (#[trigger] ts[j]).project_id@ == p.id@ ==> ts[j].created_by@
            == p.created_by@
}

/// Whether no two projects share an identifier.
pub open spec fn project_ids_unique(ps: Seq<Project>) -> bool {
    forall|a: int, b: int|
        0 <= a < ps.len() && 0 <= b < ps.len() && a != b ==> (#[trigger] ps[a].id@) != (
        #[trigger] ps[b].id@)
}

/// The store invariant: every project is consistent with the entries.
pub open spec fn consistent(ps: Seq<Project>, ts: Seq<TimeTrack>) -> bool {
    forall|i: int| 0 <= i < ps.len() ==> project_consistent(#[trigger] ps[i], ts)
}

/// A store with no projects and no entries is consistent.
pub proof fn lemma_empty_consistent(ps: Seq<Project>, ts: Seq<TimeTrack>)
    requires
        ps.len() == 0,
    ensures
        consistent(ps, ts),
        project_ids_unique(ps),
{
}

/// Appending an entry changes a project's sums by exactly the entry's
/// contributions.
pub proof fn lemma_measures_push(ts: Seq<TimeTrack>, e: TimeTrack, pid: Seq<char>)
    ensures
        finished_sum(ts.push(e), pid) == finished_sum(ts, pid) + finished_contrib(e, pid),
        in_progress_count(ts.push(e), pid) == in_progress_count(ts, pid) + in_progress_contrib(
            e,
            pid,
        ),
{
    assert(ts.push(e).drop_last() =~= ts);
    assert(ts.push(e).last() == e);
}

/// Replacing the entry at `j` changes a project's sums by the difference of
/// the two entries' contributions.
pub proof fn lemma_measures_update(ts: Seq<TimeTrack>, j: int, e: TimeTrack, pid: Seq<char>)
    requires
        0 <= j < ts.len(),
    ensures
        finished_sum(ts.update(j, e), pid) == finished_sum(ts, pid) - finished_contrib(ts[j], pid)
            + finished_contrib(e, pid),
        in_progress_count(ts.update(j, e), pid) == in_progress_count(ts, pid) - in_progress_contrib(
            ts[j],
            pid,
        ) + in_progress_contrib(e, pid),
    decreases ts.len(),
{
    if j == ts.len() - 1 {
        assert(ts.update(j, e).drop_last() =~= ts.drop_last());
        assert(ts.update(j, e).last() == e);
    } else {
        assert(ts.update(j, e).drop_last() =~= ts.drop_last().update(j, e));
        assert(ts.update(j, e).last() == ts.last());
        lemma_measures_update(ts.drop_last(), j, e, pid);
    }
}

/// Removing the entry at `j` subtracts exactly its contributions.
pub proof fn lemma_measures_remove(ts: Seq<TimeTrack>, j: int, pid: Seq<char>)
    requires
        0 <= j < ts.len(),
    ensures
        finished_sum(ts.remove(j), pid) == finished_sum(ts, pid) - finished_contrib(ts[j], pid),
        in_progress_count(ts.remove(j), pid) == in_progress_count(ts, pid) - in_progress_contrib(
            ts[j],
            pid,
        ),
    decreases ts.len(),
{
    if j == ts.len() - 1 {
        assert(ts.remove(j) =~= ts.drop_last());
    } else {
        assert(ts.remove(j).drop_last() =~= ts.drop_last().remove(j));
        assert(ts.remove(j).last() == ts.last());
        lemma_measures_remove(ts.drop_last(), j, pid);
    }
}

/// A project that no entry names has zero in both measures.
pub proof fn lemma_measures_absent(ts: Seq<TimeTrack>, pid: Seq<char>)
    requires
        forall|j: int| 0 <= j < ts.len() ==> (#[trigger] ts[j]).project_id@ != pid,
    ensures
        finished_sum(ts, pid) == 0,
        in_progress_count(ts, pid) == 0,
    decreases ts.len(),
{
    if ts.len() > 0 {
        lemma_measures_absent(ts.drop_last(), pid);
    }
}

/// Dropping every entry of project `dropped` leaves every other project's
/// measures unchanged, and zeroes those of `dropped`.
pub proof fn lemma_measures_filter_out(ts: Seq<TimeTrack>, dropped: Seq<char>, pid: Seq<char>)
    ensures
        pid != dropped ==> finished_sum(
            ts.filter(|e: TimeTrack| e.project_id@ != dropped),
            pid,
        ) == finished_sum(ts, pid) && in_progress_count(
            ts.filter(|e: TimeTrack| e.project_id@ != dropped),
            pid,
        ) == in_progress_count(ts, pid),
        pid == dropped ==> finished_sum(
            ts.filter(|e: TimeTrack| e.project_id@ != dropped),
            pid,
        ) == 0 && in_progress_count(ts.filter(|e: TimeTrack| e.project_id@ != dropped), pid) == 0,
    decreases ts.len(),
{
    reveal(Seq::filter);
    let pred = |e: TimeTrack| e.project_id@ != dropped;
    if ts.len() == 0 {
    } else {
        lemma_measures_filter_out(ts.drop_last(), dropped, pid);
        if pred(ts.last()) {
            assert(ts.filter(pred) == ts.drop_last().filter(pred).push(ts.last()));
            lemma_measures_push(ts.drop_last().filter(pred), ts.last(), pid);
        } else {
            assert(ts.filter(pred) == ts.drop_last().filter(pred));
        }
    }
}

/// An in-progress count of zero means no entry of the project is in
/// progress, whatever its owner.
pub proof fn lemma_count_zero_no_in_progress(ts: Seq<TimeTrack>, pid: Seq<char>)
    requires
        in_progress_count(ts, pid) == 0,
    ensures
        forall|j: int|
            0 <= j < ts.len() ==> !((#[trigger] ts[j]).project_id@ == pid
                && ts[j].status is InProgress),
    decreases ts.len(),
{
    if ts.len() > 0 {
        lemma_in_progress_count_nonnegative(ts.drop_last(), pid);
        lemma_count_zero_no_in_progress(ts.drop_last(), pid);
        assert(forall|j: int| 0 <= j < ts.len() - 1 ==> ts.drop_last()[j] == ts[j]);
    }
}

/// The in-progress count is never negative.
pub proof fn lemma_in_progress_count_nonnegative(ts: Seq<TimeTrack>, pid: Seq<char>)
    ensures
        in_progress_count(ts, pid) >= 0,
    decreases ts.len(),
{
    if ts.len() > 0 {
        lemma_in_progress_count_nonnegative(ts.drop_last(), pid);
    }
}

/// The aggregate sum is never negative.
pub proof fn lemma_finished_sum_nonnegative(ts: Seq<TimeTrack>, pid: Seq<char>)
    ensures
        finished_sum(ts, pid) >= 0,
    decreases ts.len(),
{
    if ts.len() > 0 {
        lemma_finished_sum_nonnegative(ts.drop_last(), pid);
    }
}

/// The aggregate sum is at least the contribution of any one entry.
proof fn lemma_sum_at_least_contrib(ts: Seq<TimeTrack>, j: int, pid: Seq<char>)
    requires
        0 <= j < ts.len(),
    ensures
        finished_sum(ts, pid) >= finished_contrib(ts[j], pid),
    decreases ts.len(),
{
    if j == ts.len() - 1 {
        lemma_finished_sum_nonnegative(ts.drop_last(), pid);
    } else {
        lemma_sum_at_least_contrib(ts.drop_last(), j, pid);
    }
}

/// Under the invariants, a finished entry's duration never exceeds its
/// project's aggregate, so an edit or a deletion of a finished entry never
/// underflows the aggregate: success is owed there.
pub proof fn lemma_finished_entry_within_aggregate(
    ps: Seq<Project>,
    ts: Seq<TimeTrack>,
    i: int,
    j: int,
)
    requires
        consistent(ps, ts),
        0 <= i < ps.len(),
        0 <= j < ts.len(),
        ts[j].project_id@ == ps[i].id@,
        ts[j].status is Finished,
    ensures
        ts[j].total_duration <= ps[i].total_duration,
{
    lemma_sum_at_least_contrib(ts, j, ps[i].id@);
}

/// When no entry of the project is in progress, the count says so.
proof fn lemma_no_match_count_zero(ts: Seq<TimeTrack>, pid: Seq<char>)
    requires
        forall|j: int|
            0 <= j < ts.len() ==> !((#[trigger] ts[j]).project_id@ == pid
                && ts[j].status is InProgress),
    ensures
        in_progress_count(ts, pid) == 0,
    decreases ts.len(),
{
    if ts.len() > 0 {
        assert(forall|j: int| 0 <= j < ts.len() - 1 ==> ts.drop_last()[j] == ts[j]);
        lemma_no_match_count_zero(ts.drop_last(), pid);
    }
}

/// Under the invariants, an active project always has an in-progress entry,
/// created by its owner: reading it is owed success, and the
/// `NoInProgressTimeTracking` failure of a read can only arise from a
/// broken store.
pub proof fn lemma_active_project_has_live_entry(ps: Seq<Project>, ts: Seq<TimeTrack>, i: int)
    requires
        consistent(ps, ts),
        0 <= i < ps.len(),
        ps[i].status is Active,
    ensures
        find_in_progress(ts, ps[i].id@, ps[i].created_by@) >= 0,
{
    let pid = ps[i].id@;
    let owner = ps[i].created_by@;
    assert(in_progress_count(ts, pid) == 1);
    if forall|j: int|
        0 <= j < ts.len() ==> !((#[trigger] ts[j]).project_id@ == pid
            && ts[j].status is InProgress) {
        lemma_no_match_count_zero(ts, pid);
    }
    let j = choose|j: int|
        0 <= j < ts.len() && (#[trigger] ts[j]).project_id@ == pid && ts[j].status is InProgress;
    assert(ts[j].created_by@ == owner);
    lemma_find_in_progress_from(ts, pid, owner, 0);
    if find_in_progress(ts, pid, owner) == -1 {
        assert(!in_progress_matches(ts[j], pid, owner));
    }
}

/// Creating a project under a fresh identifier preserves the invariants:
/// the new project is Inactive with a zero aggregate, and no entry names
/// its identifier yet.
pub proof fn lemma_create_project_preserves(ps: Seq<Project>, ts: Seq<TimeTrack>, p: Project)
    requires
        consistent(ps, ts),
        project_ids_unique(ps),
        p.status is Inactive,
        p.total_duration == 0,
        forall|a: int| 0 <= a < ps.len() ==> (#[trigger] ps[a].id@) != p.id@,
        forall|j: int| 0 <= j < ts.len() ==> (#[trigger] ts[j]).project_id@ != p.id@,
    ensures
        consistent(ps.push(p), ts),
        project_ids_unique(ps.push(p)),
{
    lemma_measures_absent(ts, p.id@);
    assert forall|i: int| 0 <= i < ps.push(p).len() implies project_consistent(
        #[trigger] ps.push(p)[i],
        ts,
    ) by {
        if i < ps.len() {
            assert(ps.push(p)[i] == ps[i]);
        } else {
            assert(ps.push(p)[i] == p);
        }
    }
}

/// Starting tracking preserves the invariants: the project at `i` flips
/// from Inactive to Active just as one in-progress entry of it, owned by
/// its owner, is appended; its aggregate is unchanged.
pub proof fn lemma_start_preserves(
    ps: Seq<Project>,
    ts: Seq<TimeTrack>,
    i: int,
    q: Project,
    t: TimeTrack,
)
    requires
        consistent(ps, ts),
        project_ids_unique(ps),
        0 <= i < ps.len(),
        ps[i].status is Inactive,
        q.id@ == ps[i].id@,
        q.created_by@ == ps[i].created_by@,
        q.status is Active,
        q.total_duration == ps[i].total_duration,
        t.project_id@ == ps[i].id@,
        t.created_by@ == ps[i].created_by@,
        t.status is InProgress,
    ensures
        consistent(ps.update(i, q), ts.push(t)),
        project_ids_unique(ps.update(i, q)),
{
    let ps2 = ps.update(i, q);
    let ts2 = ts.push(t);
    assert forall|m: int| 0 <= m < ps2.len() implies project_consistent(
        #[trigger] ps2[m],
        ts2,
    ) by {
        lemma_measures_push(ts, t, ps2[m].id@);
        if m == i {
            assert(ps2[m] == q);
            assert(in_progress_contrib(t, q.id@) == 1);
            assert(finished_contrib(t, q.id@) == 0);
        } else {
            assert(ps2[m] == ps[m]);
            assert(ps[m].id@ != ps[i].id@);
            assert(in_progress_contrib(t, ps[m].id@) == 0);
            assert(finished_contrib(t, ps[m].id@) == 0);
        }
        assert(forall|j: int| 0 <= j < ts.len() ==> ts2[j] == ts[j]);
        assert(ts2[ts.len() as int] == t);
    }
}

/// Stopping tracking preserves the invariants: the project at `i` flips
/// from Active to Inactive just as its single in-progress entry at `j` is
/// finished with duration `d`, and `d` is added to the aggregate.
pub proof fn lemma_stop_preserves(
    ps: Seq<Project>,
    ts: Seq<TimeTrack>,
    i: int,
    j: int,
    q: Project,
    t: TimeTrack,
)
    requires
        consistent(ps, ts),
        project_ids_unique(ps),
        0 <= i < ps.len(),
        0 <= j < ts.len(),
        ps[i].status is Active,
        ts[j].project_id@ == ps[i].id@,
        ts[j].status is InProgress,
        q.id@ == ps[i].id@,
        q.created_by@ == ps[i].created_by@,
        q.status is Inactive,
        q.total_duration == ps[i].total_duration + t.total_duration,
        t.project_id@ == ts[j].project_id@,
        t.created_by@ == ts[j].created_by@,
        t.status is Finished,
    ensures
        consistent(ps.update(i, q), ts.update(j, t)),
        project_ids_unique(ps.update(i, q)),
{
    let ps2 = ps.update(i, q);
    let ts2 = ts.update(j, t);
    assert forall|m: int| 0 <= m < ps2.len() implies project_consistent(
        #[trigger] ps2[m],
        ts2,
    ) by {
        lemma_measures_update(ts, j, t, ps2[m].id@);
        if m == i {
            assert(ps2[m] == q);
        } else {
            assert(ps2[m] == ps[m]);
            assert(ps[m].id@ != ps[i].id@);
        }
        assert(forall|x: int| 0 <= x < ts.len() && x != j ==> ts2[x] == ts[x]);
        assert(ts2[j] == t);
    }
}

/// Recording a back-dated finished entry preserves the invariants: a
/// finished entry of duration `d`, owned by the project's owner, is
/// appended just as `d` is added to the aggregate; the status is untouched.
pub proof fn lemma_record_entry_preserves(
    ps: Seq<Project>,
    ts: Seq<TimeTrack>,
    i: int,
    q: Project,
    t: TimeTrack,
)
    requires
        consistent(ps, ts),
        project_ids_unique(ps),
        0 <= i < ps.len(),
        q.id@ == ps[i].id@,
        q.created_by@ == ps[i].created_by@,
        q.status == ps[i].status,
        q.total_duration == ps[i].total_duration + t.total_duration,
        t.project_id@ == ps[i].id@,
        t.created_by@ == ps[i].created_by@,
        t.status is Finished,
    ensures
        consistent(ps.update(i, q), ts.push(t)),
        project_ids_unique(ps.update(i, q)),
{
    let ps2 = ps.update(i, q);
    let ts2 = ts.push(t);
    assert forall|m: int| 0 <= m < ps2.len() implies project_consistent(
        #[trigger] ps2[m],
        ts2,
    ) by {
        lemma_measures_push(ts, t, ps2[m].id@);
        if m == i {
            assert(ps2[m] == q);
        } else {
            assert(ps2[m] == ps[m]);
            assert(ps[m].id@ != ps[i].id@);
        }
        assert(forall|x: int| 0 <= x < ts.len() ==> ts2[x] == ts[x]);
        assert(ts2[ts.len() as int] == t);
    }
}

/// Editing a finished entry preserves the invariants: its duration changes
/// from the old to the new value just as the same difference is applied to
/// the aggregate; status and ownership are untouched.
pub proof fn lemma_edit_entry_preserves(
    ps: Seq<Project>,
    ts: Seq<TimeTrack>,
    i: int,
    j: int,
    q: Project,
    t: TimeTrack,
)
    requires
        consistent(ps, ts),
        project_ids_unique(ps),
        0 <= i < ps.len(),
        0 <= j < ts.len(),
        ts[j].project_id@ == ps[i].id@,
        ts[j].status is Finished,
        q.id@ == ps[i].id@,
        q.created_by@ == ps[i].created_by@,
        q.status == ps[i].status,
        q.total_duration == ps[i].total_duration - ts[j].total_duration + t.total_duration,
        t.project_id@ == ts[j].project_id@,
        t.created_by@ == ts[j].created_by@,
        t.status is Finished,
    ensures
        consistent(ps.update(i, q), ts.update(j, t)),
        project_ids_unique(ps.update(i, q)),
{
    let ps2 = ps.update(i, q);
    let ts2 = ts.update(j, t);
    assert forall|m: int| 0 <= m < ps2.len() implies project_consistent(
        #[trigger] ps2[m],
        ts2,
    ) by {
        lemma_measures_update(ts, j, t, ps2[m].id@);
        if m == i {
            assert(ps2[m] == q);
        } else {
            assert(ps2[m] == ps[m]);
            assert(ps[m].id@ != ps[i].id@);
        }
        assert(forall|x: int| 0 <= x < ts.len() && x != j ==> ts2[x] == ts[x]);
        assert(ts2[j] == t);
    }
}

/// Deleting a finished entry preserves the invariants: its duration is
/// subtracted from the aggregate; the status is untouched.
pub proof fn lemma_delete_finished_entry_preserves(
    ps: Seq<Project>,
    ts: Seq<TimeTrack>,
    i: int,
    j: int,
    q: Project,
)
    requires
        consistent(ps, ts),
        project_ids_unique(ps),
        0 <= i < ps.len(),
        0 <= j < ts.len(),
        ts[j].project_id@ == ps[i].id@,
        ts[j].status is Finished,
        q.id@ == ps[i].id@,
        q.created_by@ == ps[i].created_by@,
        q.status == ps[i].status,
        q.total_duration == ps[i].total_duration - ts[j].total_duration,
    ensures
        consistent(ps.update(i, q), ts.remove(j)),
        project_ids_unique(ps.update(i, q)),
{
    let ps2 = ps.update(i, q);
    let ts2 = ts.remove(j);
    assert forall|m: int| 0 <= m < ps2.len() implies project_consistent(
        #[trigger] ps2[m],
        ts2,
    ) by {
        lemma_measures_remove(ts, j, ps2[m].id@);
        if m == i {
            assert(ps2[m] == q);
        } else {
            assert(ps2[m] == ps[m]);
            assert(ps[m].id@ != ps[i].id@);
        }
        ts.remove_ensures(j);
    }
}

/// Deleting the in-progress entry preserves the invariants, because the
/// engine flips the project back to Inactive in the same step; the
/// aggregate is untouched.
pub proof fn lemma_delete_in_progress_entry_preserves(
    ps: Seq<Project>,
    ts: Seq<TimeTrack>,
    i: int,
    j: int,
    q: Project,
)
    requires
        consistent(ps, ts),
        project_ids_unique(ps),
        0 <= i < ps.len(),
        0 <= j < ts.len(),
        ts[j].project_id@ == ps[i].id@,
        ts[j].status is InProgress,
        q.id@ == ps[i].id@,
        q.created_by@ == ps[i].created_by@,
        q.status is Inactive,
        q.total_duration == ps[i].total_duration,
    ensures
        consistent(ps.update(i, q), ts.remove(j)),
        project_ids_unique(ps.update(i, q)),
{
    let ps2 = ps.update(i, q);
    let ts2 = ts.remove(j);
    lemma_in_progress_count_nonnegative(ts, ps[i].id@);
    assert forall|m: int| 0 <= m < ps2.len() implies project_consistent(
        #[trigger] ps2[m],
        ts2,
    ) by {
        lemma_measures_remove(ts, j, ps2[m].id@);
        if m == i {
            assert(ps2[m] == q);
            lemma_count_removed_entry_makes_zero(ts, j, ps[i].id@);
        } else {
            assert(ps2[m] == ps[m]);
            assert(ps[m].id@ != ps[i].id@);
        }
        ts.remove_ensures(j);
    }
}

/// Under the invariant, a project with an in-progress entry is Active with
/// exactly that one entry, so removing it leaves a count of zero.
proof fn lemma_count_removed_entry_makes_zero(ts: Seq<TimeTrack>, j: int, pid: Seq<char>)
    requires
        0 <= j < ts.len(),
        ts[j].project_id@ == pid,
        ts[j].status is InProgress,
        in_progress_count(ts, pid) <= 1,
    ensures
        in_progress_count(ts.remove(j), pid) == 0,
{
    lemma_measures_remove(ts, j, pid);
    lemma_in_progress_count_nonnegative(ts.remove(j), pid);
    lemma_count_at_least_contrib(ts, j, pid);
}

/// The in-progress count is at least the contribution of any one entry.
proof fn lemma_count_at_least_contrib(ts: Seq<TimeTrack>, j: int, pid: Seq<char>)
    requires
        0 <= j < ts.len(),
    ensures
        in_progress_count(ts, pid) >= in_progress_contrib(ts[j], pid),
    decreases ts.len(),
{
    if j == ts.len() - 1 {
        lemma_in_progress_count_nonnegative(ts.drop_last(), pid);
    } else {
        lemma_count_at_least_contrib(ts.drop_last(), j, pid);
    }
}

/// Deleting a project preserves the invariants for the projects that
/// remain: every entry of the deleted project goes with it, and no other
/// project's entries are touched.
pub proof fn lemma_delete_project_preserves(ps: Seq<Project>, ts: Seq<TimeTrack>, i: int)
    requires
        consistent(ps, ts),
        project_ids_unique(ps),
        0 <= i < ps.len(),
    ensures
        ({
            let pid = ps[i].id@;
            consistent(ps.remove(i), ts.filter(|e: TimeTrack| e.project_id@ != pid))
        }),
        project_ids_unique(ps.remove(i)),
{
    let pid = ps[i].id@;
    let ps2 = ps.remove(i);
    let ts2 = ts.filter(|e: TimeTrack| e.project_id@ != pid);
    ps.remove_ensures(i);
    assert forall|m: int| 0 <= m < ps2.len() implies project_consistent(
        #[trigger] ps2[m],
        ts2,
    ) by {
        let orig = if m < i {
            m
        } else {
            m + 1
        };
        assert(ps2[m] == ps[orig]);
        assert(ps[orig].id@ != pid);
        lemma_measures_filter_out(ts, pid, ps[orig].id@);
        lemma_filtered_entry_ownership(ts, pid, ps[orig].id@, ps[orig].created_by@);
    }
}

/// Filtering entries keeps the ownership rule: if every entry of project
/// `pid` was created by `owner`, the same holds after dropping the entries
/// of another project.
proof fn lemma_filtered_entry_ownership(
    ts: Seq<TimeTrack>,
    dropped: Seq<char>,
    pid: Seq<char>,
    owner: Seq<char>,
)
    requires
        forall|j: int|
            0 <= j < ts.len() && (#[trigger] ts[j]).project_id@ == pid ==> ts[j].created_by@
                == owner,
    ensures
        ({
            let ts2 = ts.filter(|e: TimeTrack| e.project_id@ != dropped);
            forall|j: int|
                0 <= j < ts2.len() && (#[trigger] ts2[j]).project_id@ == pid ==> ts2[j].created_by@
                    == owner
        }),
    decreases ts.len(),
{
    reveal(Seq::filter);
    let pred = |e: TimeTrack| e.project_id@ != dropped;
    if ts.len() > 0 {
        assert(forall|j: int| 0 <= j < ts.len() - 1 ==> ts.drop_last()[j] == ts[j]);
        lemma_filtered_entry_ownership(ts.drop_last(), dropped, pid, owner);
        let sub = ts.drop_last().filter(pred);
        let ts2 = ts.filter(pred);
        if pred(ts.last()) {
            assert(ts2 == sub.push(ts.last()));
            assert forall|j: int|
                0 <= j < ts2.len() && (#[trigger] ts2[j]).project_id@ == pid implies ts2[j].created_by@
                == owner by {
                if j < sub.len() {
                    assert(ts2[j] == sub[j]);
                } else {
                    assert(ts2[j] == ts.last());
                    assert(ts[ts.len() - 1].project_id@ == pid ==> ts[ts.len() - 1].created_by@
                        == owner);
                }
            }
        } else {
            assert(ts2 == sub);
        }
    }
}

/// At most one tracking runs per project: under the invariant, an Active
/// project has exactly one in-progress entry, so a second start in a row
/// finds the project Active and is rejected without any change.
pub proof fn lemma_at_most_one_active(
    ps: Seq<Project>,
    ts: Seq<TimeTrack>,
    owner: Seq<char>,
    pid: Seq<char>,
)
    requires
        consistent(ps, ts),
        find_project(ps, owner, pid) >= 0,
        ps[find_project(ps, owner, pid)].status is Active,
    ensures
        in_progress_count(ts, ps[find_project(ps, owner, pid)].id@) == 1,
{
    lemma_find_project_from(ps, owner, pid, 0);
}

/// After a successful start, the same project is found Active, so the
/// engine's contract rejects a second start with `AlreadyTrackingTime` and
/// leaves both stores unchanged.
pub proof fn lemma_start_twice_rejected(
    ps: Seq<Project>,
    owner: Seq<char>,
    pid: Seq<char>,
    i: int,
    q: Project,
)
    requires
        find_project(ps, owner, pid) == i,
        0 <= i < ps.len(),
        project_matches(q, owner, pid),
        q.status is Active,
    ensures
        find_project(ps.update(i, q), owner, pid) == i,
        ps.update(i, q)[i].status is Active,
{
    let ps2 = ps.update(i, q);
    lemma_find_project_from(ps, owner, pid, 0);
    lemma_find_project_from(ps2, owner, pid, 0);
    let r = find_project(ps2, owner, pid);
    assert(project_matches(ps2[i], owner, pid));
    assert(r != -1);
    assert(forall|j: int| 0 <= j < i ==> ps2[j] == ps[j]);
    if r < i {
        assert(project_matches(ps2[r], owner, pid));
        assert(!project_matches(ps[r], owner, pid));
    }
    if r > i {
        assert(!project_matches(ps2[i], owner, pid));
    }
}

/// The round trip of a start at `t0` and a stop at a later `t1`: the stop
/// finds exactly the entry the start created, finishes it with a duration
/// of `t1 - t0` whole seconds, and grows the project's aggregate by the
/// same amount.
pub proof fn lemma_round_trip_duration(
    ps: Seq<Project>,
    ts: Seq<TimeTrack>,
    i: int,
    q: Project,
    t: TimeTrack,
    t0: u64,
    t1: u64,
)
    requires
        consistent(ps, ts),
        0 <= i < ps.len(),
        ps[i].status is Inactive,
        q.id@ == ps[i].id@,
        q.created_by@ == ps[i].created_by@,
        q.status is Active,
        q.total_duration == ps[i].total_duration,
        t.project_id@ == ps[i].id@,
        t.created_by@ == ps[i].created_by@,
        t.status is InProgress,
        t.started_at == t0,
        t0 <= t1,
    ensures
        ({
            let ts2 = ts.push(t);
            let j = find_in_progress(ts2, q.id@, q.created_by@);
            &&& j == ts.len()
            &&& ts2[j] == t
            &&& crate::spec_interval_seconds(ts2[j].started_at, t1) == t1 - t0
        }),
{
    let ts2 = ts.push(t);
    lemma_count_zero_no_in_progress(ts, ps[i].id@);
    lemma_find_in_progress_from(ts2, q.id@, q.created_by@, 0);
    let j = find_in_progress(ts2, q.id@, q.created_by@);
    assert(forall|x: int| 0 <= x < ts.len() ==> ts2[x] == ts[x]);
    assert(ts2[ts.len() as int] == t);
    assert(in_progress_matches(ts2[ts.len() as int], q.id@, q.created_by@));
    assert(j != -1);
    if j < ts.len() {
        assert(in_progress_matches(ts[j], q.id@, q.created_by@));
        assert(ts[j].project_id@ == ps[i].id@ && ts[j].status is InProgress);
    }
}

} // verus!
