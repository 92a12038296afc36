//! The time-track engine: starting, stopping, recording, editing and
//! deleting time-track entries, and keeping the owning project's status and
//! aggregate duration consistent while doing so.

use vstd::prelude::*;
use vstd::relations::sorted_by;
use vstd::string::StringExecFns;

use crate::db::{spec_db_error_message, DbError};
use crate::ids;
use crate::project_model::{Project, ProjectStatus};
use crate::project_service::{
    find_project, spec_project_error_message, ProjectError, ProjectService,
};
use crate::time_track_model::{TimeTrack, TimeTrackStatus};
use crate::user_model::User;

verus! {

/// An error from the time-track engine.
#[derive(Debug, PartialEq, Eq)]
pub enum TimeTrackError {
    /// The time-track entry was not found, or is not an editable target.
    NotFound,
    /// The project does not exist or is not owned by the caller.
    ProjectNotFound,
    /// No time tracking is in progress on the named project.
    NoInProgressTimeTracking(String),
    /// Time tracking is already in progress on the named project.
    AlreadyTrackingTime(String),
    /// Any other fault; the payload is logged, never interpreted.
    Unknown(String),
}

/// The description of a time-track error.
pub open spec fn spec_time_track_error_message(e: TimeTrackError) -> Seq<char> {
    match e {
        TimeTrackError::NotFound => "Time tracking not found"@,
        TimeTrackError::ProjectNotFound => "Project not found"@,
        TimeTrackError::NoInProgressTimeTracking(name) => {
            "No time tracking is in progress for project '"@ + name@ + "'."@
        },
        TimeTrackError::AlreadyTrackingTime(name) => {
            "Time tracking is already in progress on project '"@ + name@ + "'"@
        },
        TimeTrackError::Unknown(msg) => "Unknown error: "@ + msg@,
    }
}

impl TimeTrackError {
    /// Renders the error as text.
    pub fn message(&self) -> (m: String)
        ensures
            m@ == spec_time_track_error_message(*self),
    {
        match self {
            TimeTrackError::NotFound => "Time tracking not found".to_owned(),
            TimeTrackError::ProjectNotFound => "Project not found".to_owned(),
            TimeTrackError::NoInProgressTimeTracking(name) => {
                let mut m: String = "No time tracking is in progress for project '".to_owned();
                m.append(name.as_str());
                m.append("'.");
                m
            },
            TimeTrackError::AlreadyTrackingTime(name) => {
                let mut m: String = "Time tracking is already in progress on project '".to_owned();
                m.append(name.as_str());
                m.append("'");
                m
            },
            TimeTrackError::Unknown(msg) => {
                let mut m: String = "Unknown error: ".to_owned();
                m.append(msg.as_str());
                m
            },
        }
    }

    /// Maps a storage fault into the time-track vocabulary.
    pub fn from_db_error(e: DbError) -> (r: TimeTrackError)
        ensures
            e is NotFound ==> r == TimeTrackError::NotFound,
            e matches DbError::Convertion { .. } ==> (r matches TimeTrackError::Unknown(m)
                && m@ == spec_db_error_message(e)),
            e matches DbError::Unknown(msg) ==> (r matches TimeTrackError::Unknown(m) && m@
                == msg@),
    {
        match e {
            DbError::NotFound => TimeTrackError::NotFound,
            DbError::Convertion { table, id } => {
                let m = DbError::Convertion { table, id }.message();
                TimeTrackError::Unknown(m)
            },
            DbError::Unknown(msg) => TimeTrackError::Unknown(msg),
        }
    }

    /// Re-maps a project-engine error into the time-track vocabulary: absence
    /// stays absence, anything else is wrapped as an unknown fault.
    pub fn from_project_error(e: ProjectError) -> (r: TimeTrackError)
        ensures
            e is NotFound ==> r == TimeTrackError::ProjectNotFound,
            !(e is NotFound) ==> (r matches TimeTrackError::Unknown(m) && m@
                == spec_project_error_message(e)),
    {
        match e {
            ProjectError::NotFound => TimeTrackError::ProjectNotFound,
            other => {
                let m = other.message();
                TimeTrackError::Unknown(m)
            },
        }
    }
}

/// Whether `e` is the in-progress entry of project `pid`, created by `owner`.
pub open spec fn in_progress_matches(e: TimeTrack, pid: Seq<char>, owner: Seq<char>) -> bool {
    e.project_id@ == pid && e.created_by@ == owner && e.status is InProgress
}

/// The first index at or after `k` of an in-progress entry of `pid` owned by
/// `owner`, or -1 when there is none.
pub open spec fn find_in_progress_from(
    ts: Seq<TimeTrack>,
    pid: Seq<char>,
    owner: Seq<char>,
    k: int,
) -> int
    decreases ts.len() - k,
{
    if k < 0 || k >= ts.len() {
        -1
    } else if in_progress_matches(ts[k], pid, owner) {
        k
    } else {
        find_in_progress_from(ts, pid, owner, k + 1)
    }
}

/// The first index of an in-progress entry of `pid` owned by `owner`, or -1.
pub open spec fn find_in_progress(ts: Seq<TimeTrack>, pid: Seq<char>, owner: Seq<char>) -> int {
    find_in_progress_from(ts, pid, owner, 0)
}

/// What the index found by [`find_in_progress_from`] satisfies: -1 means no
/// entry at or after `k` matches; otherwise it is the first match.
pub proof fn lemma_find_in_progress_from(
    ts: Seq<TimeTrack>,
    pid: Seq<char>,
    owner: Seq<char>,
    k: int,
)
    requires
        0 <= k <= ts.len(),
    ensures
        ({
            let r = find_in_progress_from(ts, pid, owner, k);
            &&& r == -1 || k <= r < ts.len()
            &&& r == -1 ==> forall|j: int|
                k <= j < ts.len() ==> !in_progress_matches(#[trigger] ts[j], pid, owner)
            &&& r >= 0 ==> k <= r < ts.len() && in_progress_matches(ts[r], pid, owner) && forall|
                j: int,
            |
                k <= j < r ==> !in_progress_matches(#[trigger] ts[j], pid, owner)
        }),
    decreases ts.len() - k,
{
    if k < 0 || k >= ts.len() {
    } else if in_progress_matches(ts[k], pid, owner) {
    } else {
        lemma_find_in_progress_from(ts, pid, owner, k + 1);
    }
}

/// Whether `e` is the entry keyed by `(pid, tid)`.
pub open spec fn entry_matches(e: TimeTrack, pid: Seq<char>, tid: Seq<char>) -> bool {
    e.project_id@ == pid && e.id@ == tid
}

/// The first index at or after `k` of the entry keyed by `(pid, tid)`, or -1.
pub open spec fn find_entry_from(ts: Seq<TimeTrack>, pid: Seq<char>, tid: Seq<char>, k: int) -> int
    decreases ts.len() - k,
{
    if k < 0 || k >= ts.len() {
        -1
    } else if entry_matches(ts[k], pid, tid) {
        k
    } else {
        find_entry_from(ts, pid, tid, k + 1)
    }
}

/// The first index of the entry keyed by `(pid, tid)`, or -1.
pub open spec fn find_entry(ts: Seq<TimeTrack>, pid: Seq<char>, tid: Seq<char>) -> int {
    find_entry_from(ts, pid, tid, 0)
}

/// What the index found by [`find_entry_from`] satisfies.
pub proof fn lemma_find_entry_from(ts: Seq<TimeTrack>, pid: Seq<char>, tid: Seq<char>, k: int)
    requires
        0 <= k <= ts.len(),
    ensures
        ({
            let r = find_entry_from(ts, pid, tid, k);
            &&& r == -1 || k <= r < ts.len()
            &&& r == -1 ==> forall|j: int|
                k <= j < ts.len() ==> !entry_matches(#[trigger] ts[j], pid, tid)
            &&& r >= 0 ==> k <= r < ts.len() && entry_matches(ts[r], pid, tid) && forall|j: int|
                k <= j < r ==> !entry_matches(#[trigger] ts[j], pid, tid)
        }),
    decreases ts.len() - k,
{
    if k < 0 || k >= ts.len() {
    } else if entry_matches(ts[k], pid, tid) {
    } else {
        lemma_find_entry_from(ts, pid, tid, k + 1);
    }
}

/// Whether some entry already uses the key `(pid, tid)`.
pub open spec fn entry_key_taken(ts: Seq<TimeTrack>, pid: Seq<char>, tid: Seq<char>) -> bool {
    find_entry(ts, pid, tid) >= 0
}

/// The selection of entries that belong to project `pid` and owner `owner`.
pub open spec fn entry_selector(pid: Seq<char>, owner: Seq<char>) -> spec_fn(TimeTrack) -> bool {
    |e: TimeTrack| e.project_id@ == pid && e.created_by@ == owner
}

/// The read-time adjustment applied to every reported entry.
pub open spec fn live_adjustment(now: u64) -> spec_fn(TimeTrack) -> TimeTrack {
    |e: TimeTrack| live_adjusted(e, now)
}

/// The order in which entries are listed: by starting instant, ascending.
pub open spec fn entry_order() -> spec_fn(TimeTrack, TimeTrack) -> bool {
    |a: TimeTrack, b: TimeTrack| a.started_at <= b.started_at
}

/// An entry as it is reported at read time: an in-progress entry carries its
/// live elapsed duration, a finished entry is reported as stored.
pub open spec fn live_adjusted(e: TimeTrack, now: u64) -> TimeTrack {
    if e.status is InProgress {
        TimeTrack {
            total_duration: crate::spec_interval_seconds(e.started_at, now) as u64,
            ..e
        }
    } else {
        e
    }
}

/// The time-track engine. It owns the time-track entries; the projects it
/// keeps consistent live in the [`ProjectService`] that each operation
/// receives.
#[derive(Debug)]
pub struct TimeTrackService {
    pub entries: Vec<TimeTrack>,
}

impl TimeTrackService {
    /// An engine with no recorded entries.
    pub fn new() -> (s: TimeTrackService)
        ensures
            s.entries@.len() == 0,
    {
        TimeTrackService { entries: Vec::new() }
    }

    /// Finds the index of the in-progress entry of `pid` owned by `owner`.
    pub(crate) fn find_in_progress_index(&self, pid: &str, owner: &str) -> (r: Option<usize>)
        ensures
            match r {
                Some(j) => find_in_progress(self.entries@, pid@, owner@) == j && j
                    < self.entries@.len(),
                None => find_in_progress(self.entries@, pid@, owner@) == -1,
            },
    {
        let ts = &self.entries;
        let mut j: usize = 0;
        while j < ts.len()
            invariant
                j <= ts.len(),
                ts@ == self.entries@,
                find_in_progress(ts@, pid@, owner@) == find_in_progress_from(
                    ts@,
                    pid@,
                    owner@,
                    j as int,
                ),
            decreases ts.len() - j,
        {
            let e = &ts[j];
            if crate::str_eq(e.project_id.as_str(), pid) && crate::str_eq(
                e.created_by.as_str(),
                owner,
            ) && matches!(e.status, TimeTrackStatus::InProgress) {
                return Some(j);
            }
            j = j + 1;
        }
        None
    }

    /// Finds the index of the entry keyed by `(pid, tid)`.
    pub(crate) fn find_entry_index(&self, pid: &str, tid: &str) -> (r: Option<usize>)
        ensures
            match r {
                Some(j) => find_entry(self.entries@, pid@, tid@) == j && j < self.entries@.len(),
                None => find_entry(self.entries@, pid@, tid@) == -1,
            },
    {
        let ts = &self.entries;
        let mut j: usize = 0;
        while j < ts.len()
            invariant
                j <= ts.len(),
                ts@ == self.entries@,
                find_entry(ts@, pid@, tid@) == find_entry_from(ts@, pid@, tid@, j as int),
            decreases ts.len() - j,
        {
            let e = &ts[j];
            if crate::str_eq(e.project_id.as_str(), pid) && crate::str_eq(e.id.as_str(), tid) {
                return Some(j);
            }
            j = j + 1;
        }
        None
    }

    /// The in-progress entry of the project, reported with its live elapsed
    /// duration; `NoInProgressTimeTracking` names the project when there is
    /// none. Used by the project engine to project an active project's
    /// current duration.
    pub fn get_in_progress(&self, user: &User, project_id: &str, project_name: &str, now: u64) -> (r:
        Result<TimeTrack, TimeTrackError>)
        ensures
            ({
                let j = find_in_progress(self.entries@, project_id@, user.id@);
                &&& j == -1 ==> (r matches Err(TimeTrackError::NoInProgressTimeTracking(n)) && n@
                    == project_name@)
                &&& j >= 0 ==> r == Ok::<TimeTrack, TimeTrackError>(
                    live_adjusted(self.entries@[j], now),
                )
            }),
    {
        match self.find_in_progress_index(project_id, user.id.as_str()) {
            None => Err(TimeTrackError::NoInProgressTimeTracking(project_name.to_owned())),
            Some(j) => {
                proof {
                    lemma_find_in_progress_from(self.entries@, project_id@, user.id@, 0);
                }
                let e = &self.entries[j];
                let mut t = e.clone();
                t.total_duration = crate::interval_seconds(e.started_at, now);
                proof {
                    assert(t =~= live_adjusted(self.entries@[j as int], now));
                }
                Ok(t)
            },
        }
    }

    /// Starts tracking on an inactive project, under a caller-supplied entry
    /// identifier: the project is flipped to Active and a fresh in-progress
    /// entry started at `now` is recorded, both in one step.
    pub fn start_with_id(
        &mut self,
        ps: &mut ProjectService,
        user: &User,
        project_id: &str,
        comment: Option<String>,
        id: String,
        now: u64,
    ) -> (r: Result<(TimeTrack, String), TimeTrackError>)
        ensures
            final(ps).max_projects == old(ps).max_projects,
            ({
                let i = find_project(old(ps).projects@, user.id@, project_id@);
                &&& i == -1 ==> r == Err::<(TimeTrack, String), TimeTrackError>(
                    TimeTrackError::ProjectNotFound,
                )
                &&& i >= 0 ==> ({
                    let p = old(ps).projects@[i];
                    &&& p.status is Active ==> (r matches Err(TimeTrackError::AlreadyTrackingTime(
                        n,
                    )) && n@ == p.name@)
                    &&& p.status is Inactive && entry_key_taken(
                        old(self).entries@,
                        project_id@,
                        id@,
                    ) ==> (r matches Err(TimeTrackError::Unknown(_)))
                    &&& p.status is Inactive && !entry_key_taken(
                        old(self).entries@,
                        project_id@,
                        id@,
                    ) ==> (r matches Ok((t, n)) && n@ == p.name@ && t.id == id && t.project_id@
                        == project_id@ && t.status is InProgress && t.comment == comment
                        && t.started_at == now && t.stopped_at is None && t.total_duration == 0
                        && t.created_by@ == user.id@ && final(self).entries@ == old(
                        self,
                    ).entries@.push(t) && final(ps).projects@ == old(ps).projects@.update(
                        i,
                        (Project {
                            status: ProjectStatus::Active,
                            modified_at: Some(now),
                            modified_by: Some(user.id),
                            ..p
                        }),
                    ))
                })
            }),
            r is Err ==> final(self).entries@ == old(self).entries@ && final(ps).projects@ == old(
                ps,
            ).projects@,
            crate::consistency::consistent(old(ps).projects@, old(self).entries@)
                && crate::consistency::project_ids_unique(old(ps).projects@)
                ==> crate::consistency::consistent(final(ps).projects@, final(self).entries@)
                && crate::consistency::project_ids_unique(final(ps).projects@),
    {
        match ps.find_index(user.id.as_str(), project_id) {
            None => Err(TimeTrackError::ProjectNotFound),
            Some(i) => {
                let stored = &ps.projects[i];
                match stored.status {
                    ProjectStatus::Active => {
                        Err(TimeTrackError::AlreadyTrackingTime(stored.name.clone()))
                    },
                    ProjectStatus::Inactive => {
                        if self.find_entry_index(project_id, id.as_str()).is_some() {
                            return Err(
                                TimeTrackError::Unknown("time track id already in use".to_owned()),
                            );
                        }
                        let t = TimeTrack {
                            id,
                            project_id: project_id.to_owned(),
                            status: TimeTrackStatus::InProgress,
                            comment,
                            started_at: now,
                            stopped_at: None,
                            total_duration: 0,
                            created_by: user.id.clone(),
                        };
                        let q = Project {
                            id: stored.id.clone(),
                            name: stored.name.clone(),
                            status: ProjectStatus::Active,
                            total_duration: stored.total_duration,
                            created_at: stored.created_at,
                            created_by: stored.created_by.clone(),
                            modified_at: Some(now),
                            modified_by: Some(user.id.clone()),
                        };
                        let name_out = stored.name.clone();
                        proof {
                            assert(q =~= (Project {
                                status: ProjectStatus::Active,
                                modified_at: Some(now),
                                modified_by: Some(user.id),
                                ..ps.projects@[i as int]
                            }));
                        }
                        ps.projects.set(i, q);
                        let t_out = t.clone();
                        self.entries.push(t);
                        proof {
                            if crate::consistency::consistent(
                                old(ps).projects@,
                                old(self).entries@,
                            ) && crate::consistency::project_ids_unique(old(ps).projects@) {
                                crate::project_service::lemma_find_project_from(
                                    old(ps).projects@,
                                    user.id@,
                                    project_id@,
                                    0,
                                );
                                crate::consistency::lemma_start_preserves(
                                    old(ps).projects@,
                                    old(self).entries@,
                                    i as int,
                                    ps.projects@[i as int],
                                    self.entries@.last(),
                                );
                            }
                        }
                        Ok((t_out, name_out))
                    },
                }
            },
        }
    }

    /// Starts tracking on an inactive project with a fresh entry identifier.
    /// Success is owed for an existing, inactive project, unless the freshly
    /// drawn identifier collides with an existing entry's.
    pub fn start(
        &mut self,
        ps: &mut ProjectService,
        user: &User,
        project_id: &str,
        comment: Option<String>,
        now: u64,
    ) -> (r: Result<(TimeTrack, String), TimeTrackError>)
        ensures
            final(ps).max_projects == old(ps).max_projects,
            ({
                let i = find_project(old(ps).projects@, user.id@, project_id@);
                &&& i == -1 ==> r == Err::<(TimeTrack, String), TimeTrackError>(
                    TimeTrackError::ProjectNotFound,
                )
                &&& i >= 0 ==> ({
                    let p = old(ps).projects@[i];
                    &&& p.status is Active ==> (r matches Err(TimeTrackError::AlreadyTrackingTime(
                        n,
                    )) && n@ == p.name@)
                    &&& p.status is Inactive ==> (r is Ok || r matches Err(
                        TimeTrackError::Unknown(_),
                    ))
                    &&& r matches Ok((t, n)) ==> (n@ == p.name@ && t.id@.len() == 36
                        && t.project_id@ == project_id@ && t.status is InProgress && t.comment
                        == comment && t.started_at == now && t.stopped_at is None
                        && t.total_duration == 0 && t.created_by@ == user.id@ && !entry_key_taken(
                        old(self).entries@,
                        project_id@,
                        t.id@,
                    ) && final(self).entries@ == old(self).entries@.push(t) && final(ps).projects@
                        == old(ps).projects@.update(
                        i,
                        (Project {
                            status: ProjectStatus::Active,
                            modified_at: Some(now),
                            modified_by: Some(user.id),
                            ..p
                        }),
                    ))
                })
            }),
            r is Err ==> final(self).entries@ == old(self).entries@ && final(ps).projects@ == old(
                ps,
            ).projects@,
            crate::consistency::consistent(old(ps).projects@, old(self).entries@)
                && crate::consistency::project_ids_unique(old(ps).projects@)
                ==> crate::consistency::consistent(final(ps).projects@, final(self).entries@)
                && crate::consistency::project_ids_unique(final(ps).projects@),
    {
        let id = ids::fresh_uuid();
        self.start_with_id(ps, user, project_id, comment, id, now)
    }

    /// Stops the in-progress tracking on an active project: the entry is
    /// finished with `stopped_at = now` and its whole-second duration, and
    /// the project is flipped to Inactive with that duration added to its
    /// aggregate, both in one step.
    pub fn stop(&mut self, ps: &mut ProjectService, user: &User, project_id: &str, now: u64) -> (r:
        Result<(TimeTrack, String), TimeTrackError>)
        ensures
            final(ps).max_projects == old(ps).max_projects,
            ({
                let i = find_project(old(ps).projects@, user.id@, project_id@);
                &&& i == -1 ==> r == Err::<(TimeTrack, String), TimeTrackError>(
                    TimeTrackError::ProjectNotFound,
                )
                &&& i >= 0 ==> ({
                    let p = old(ps).projects@[i];
                    let j = find_in_progress(old(self).entries@, p.id@, user.id@);
                    let e = old(self).entries@[j];
                    let d = crate::spec_interval_seconds(e.started_at, now);
                    &&& p.status is Inactive ==> (r matches Err(
                        TimeTrackError::NoInProgressTimeTracking(n),
                    ) && n@ == p.name@)
                    &&& p.status is Active && j == -1 ==> (r matches Err(
                        TimeTrackError::NoInProgressTimeTracking(n),
                    ) && n@ == p.name@)
                    &&& p.status is Active && j >= 0 && p.total_duration + d > u64::MAX ==> (r matches Err(
                        TimeTrackError::Unknown(_),
                    ))
                    &&& p.status is Active && j >= 0 && p.total_duration + d <= u64::MAX ==> (r
                        matches Ok((t, n)) && n@ == p.name@ && t == (TimeTrack {
                        status: TimeTrackStatus::Finished,
                        stopped_at: Some(now),
                        total_duration: d as u64,
                        ..e
                    }) && final(self).entries@ == old(self).entries@.update(j, t)
                        && final(ps).projects@ == old(ps).projects@.update(
                        i,
                        (Project {
                            status: ProjectStatus::Inactive,
                            total_duration: (p.total_duration + d) as u64,
                            modified_at: Some(now),
                            modified_by: Some(user.id),
                            ..p
                        }),
                    ))
                })
            }),
            r is Err ==> final(self).entries@ == old(self).entries@ && final(ps).projects@ == old(
                ps,
            ).projects@,
            crate::consistency::consistent(old(ps).projects@, old(self).entries@)
                && crate::consistency::project_ids_unique(old(ps).projects@)
                ==> crate::consistency::consistent(final(ps).projects@, final(self).entries@)
                && crate::consistency::project_ids_unique(final(ps).projects@),
            ({
                let i = find_project(old(ps).projects@, user.id@, project_id@);
                crate::consistency::consistent(old(ps).projects@, old(self).entries@) && i >= 0
                    && old(ps).projects@[i].status is Active ==> (r is Ok || r matches Err(
                    TimeTrackError::Unknown(_),
                ))
            }),
    {
        match ps.find_index(user.id.as_str(), project_id) {
            None => Err(TimeTrackError::ProjectNotFound),
            Some(i) => {
                proof {
                    crate::project_service::lemma_find_project_from(
                        ps.projects@,
                        user.id@,
                        project_id@,
                        0,
                    );
                }
                let stored = &ps.projects[i];
                match stored.status {
                    ProjectStatus::Inactive => {
                        Err(TimeTrackError::NoInProgressTimeTracking(stored.name.clone()))
                    },
                    ProjectStatus::Active => {
                        match self.find_in_progress_index(project_id, user.id.as_str()) {
                            None => {
                                proof {
                                    if crate::consistency::consistent(
                                        ps.projects@,
                                        self.entries@,
                                    ) {
                                        crate::consistency::lemma_active_project_has_live_entry(
                                            ps.projects@,
                                            self.entries@,
                                            i as int,
                                        );
                                    }
                                }
                                Err(TimeTrackError::NoInProgressTimeTracking(stored.name.clone()))
                            },
                            Some(j) => {
                                proof {
                                    lemma_find_in_progress_from(
                                        self.entries@,
                                        project_id@,
                                        user.id@,
                                        0,
                                    );
                                }
                                let e = &self.entries[j];
                                let d = crate::interval_seconds(e.started_at, now);
                                if stored.total_duration > u64::MAX - d {
                                    return Err(
                                        TimeTrackError::Unknown(
                                            "project duration overflow".to_owned(),
                                        ),
                                    );
                                }
                                let mut t = e.clone();
                                t.status = TimeTrackStatus::Finished;
                                t.stopped_at = Some(now);
                                t.total_duration = d;
                                let q = Project {
                                    id: stored.id.clone(),
                                    name: stored.name.clone(),
                                    status: ProjectStatus::Inactive,
                                    total_duration: stored.total_duration + d,
                                    created_at: stored.created_at,
                                    created_by: stored.created_by.clone(),
                                    modified_at: Some(now),
                                    modified_by: Some(user.id.clone()),
                                };
                                let name_out = stored.name.clone();
                                proof {
                                    let p = ps.projects@[i as int];
                                    let ee = self.entries@[j as int];
                                    let dd = crate::spec_interval_seconds(ee.started_at, now);
                                    assert(t =~= (TimeTrack {
                                        status: TimeTrackStatus::Finished,
                                        stopped_at: Some(now),
                                        total_duration: dd as u64,
                                        ..ee
                                    }));
                                    assert(q =~= (Project {
                                        status: ProjectStatus::Inactive,
                                        total_duration: (p.total_duration + dd) as u64,
                                        modified_at: Some(now),
                                        modified_by: Some(user.id),
                                        ..p
                                    }));
                                }
                                ps.projects.set(i, q);
                                let t_out = t.clone();
                                self.entries.set(j, t);
                                proof {
                                    if crate::consistency::consistent(
                                        old(ps).projects@,
                                        old(self).entries@,
                                    ) && crate::consistency::project_ids_unique(
                                        old(ps).projects@,
                                    ) {
                                        crate::consistency::lemma_stop_preserves(
                                            old(ps).projects@,
                                            old(self).entries@,
                                            i as int,
                                            j as int,
                                            ps.projects@[i as int],
                                            self.entries@[j as int],
                                        );
                                    }
                                }
                                Ok((t_out, name_out))
                            },
                        }
                    },
                }
            },
        }
    }

    /// Records a back-dated entry under a caller-supplied identifier: the
    /// entry is created Finished over the given interval and its duration is
    /// added to the project's stored aggregate, both in one step. An
    /// interval whose end lies before its start is recorded with duration
    /// zero.
    pub fn create_with_id(
        &mut self,
        ps: &mut ProjectService,
        user: &User,
        project_id: String,
        started_at: u64,
        stopped_at: u64,
        comment: Option<String>,
        id: String,
        now: u64,
    ) -> (r: Result<(TimeTrack, String), TimeTrackError>)
        ensures
            final(ps).max_projects == old(ps).max_projects,
            ({
                let i = find_project(old(ps).projects@, user.id@, project_id@);
                &&& i == -1 ==> r == Err::<(TimeTrack, String), TimeTrackError>(
                    TimeTrackError::ProjectNotFound,
                )
                &&& i >= 0 ==> ({
                    let p = old(ps).projects@[i];
                    let d = crate::spec_interval_seconds(started_at, stopped_at);
                    &&& entry_key_taken(old(self).entries@, project_id@, id@) ==> (r matches Err(
                        TimeTrackError::Unknown(_),
                    ))
                    &&& !entry_key_taken(old(self).entries@, project_id@, id@) && p.total_duration
                        + d > u64::MAX ==> (r matches Err(TimeTrackError::Unknown(_)))
                    &&& !entry_key_taken(old(self).entries@, project_id@, id@) && p.total_duration
                        + d <= u64::MAX ==> (r matches Ok((t, n)) && n@ == p.name@ && t.id == id
                        && t.project_id == project_id && t.status is Finished && t.comment
                        == comment && t.started_at == started_at && t.stopped_at == Some(stopped_at)
                        && t.total_duration == d && t.created_by@ == user.id@
                        && final(self).entries@ == old(self).entries@.push(t)
                        && final(ps).projects@ == old(ps).projects@.update(
                        i,
                        (Project {
                            total_duration: (p.total_duration + d) as u64,
                            modified_at: Some(now),
                            modified_by: Some(user.id),
                            ..p
                        }),
                    ))
                })
            }),
            r is Err ==> final(self).entries@ == old(self).entries@ && final(ps).projects@ == old(
                ps,
            ).projects@,
            crate::consistency::consistent(old(ps).projects@, old(self).entries@)
                && crate::consistency::project_ids_unique(old(ps).projects@)
                ==> crate::consistency::consistent(final(ps).projects@, final(self).entries@)
                && crate::consistency::project_ids_unique(final(ps).projects@),
    {
        match ps.find_index(user.id.as_str(), project_id.as_str()) {
            None => Err(TimeTrackError::ProjectNotFound),
            Some(i) => {
                proof {
                    crate::project_service::lemma_find_project_from(
                        ps.projects@,
                        user.id@,
                        project_id@,
                        0,
                    );
                }
                let stored = &ps.projects[i];
                if self.find_entry_index(project_id.as_str(), id.as_str()).is_some() {
                    return Err(TimeTrackError::Unknown("time track id already in use".to_owned()));
                }
                let d = crate::interval_seconds(started_at, stopped_at);
                if stored.total_duration > u64::MAX - d {
                    return Err(TimeTrackError::Unknown("project duration overflow".to_owned()));
                }
                let q = Project {
                    id: stored.id.clone(),
                    name: stored.name.clone(),
                    status: stored.status,
                    total_duration: stored.total_duration + d,
                    created_at: stored.created_at,
                    created_by: stored.created_by.clone(),
                    modified_at: Some(now),
                    modified_by: Some(user.id.clone()),
                };
                let name_out = stored.name.clone();
                proof {
                    let p = ps.projects@[i as int];
                    let dd = crate::spec_interval_seconds(started_at, stopped_at);
                    assert(q =~= (Project {
                        total_duration: (p.total_duration + dd) as u64,
                        modified_at: Some(now),
                        modified_by: Some(user.id),
                        ..p
                    }));
                }
                let t = TimeTrack {
                    id,
                    project_id,
                    status: TimeTrackStatus::Finished,
                    comment,
                    started_at,
                    stopped_at: Some(stopped_at),
                    total_duration: d,
                    created_by: user.id.clone(),
                };
                ps.projects.set(i, q);
                let t_out = t.clone();
                self.entries.push(t);
                proof {
                    if crate::consistency::consistent(old(ps).projects@, old(self).entries@)
                        && crate::consistency::project_ids_unique(old(ps).projects@) {
                        crate::consistency::lemma_record_entry_preserves(
                            old(ps).projects@,
                            old(self).entries@,
                            i as int,
                            ps.projects@[i as int],
                            self.entries@.last(),
                        );
                    }
                }
                Ok((t_out, name_out))
            },
        }
    }

    /// Records a back-dated entry with a fresh identifier. Success is owed
    /// for an existing project whose aggregate the new duration still fits,
    /// unless the freshly drawn identifier collides with an existing
    /// entry's.
    pub fn create(
        &mut self,
        ps: &mut ProjectService,
        user: &User,
        project_id: String,
        started_at: u64,
        stopped_at: u64,
        comment: Option<String>,
        now: u64,
    ) -> (r: Result<(TimeTrack, String), TimeTrackError>)
        ensures
            final(ps).max_projects == old(ps).max_projects,
            ({
                let i = find_project(old(ps).projects@, user.id@, project_id@);
                &&& i == -1 ==> r == Err::<(TimeTrack, String), TimeTrackError>(
                    TimeTrackError::ProjectNotFound,
                )
                &&& i >= 0 ==> ({
                    let p = old(ps).projects@[i];
                    let d = crate::spec_interval_seconds(started_at, stopped_at);
                    &&& p.total_duration + d <= u64::MAX ==> (r is Ok || r matches Err(
                        TimeTrackError::Unknown(_),
                    ))
                    &&& p.total_duration + d > u64::MAX ==> (r matches Err(
                        TimeTrackError::Unknown(_),
                    ))
                    &&& r matches Ok((t, n)) ==> (n@ == p.name@ && t.id@.len() == 36
                        && t.project_id@ == project_id@ && t.status is Finished && t.comment
                        == comment && t.started_at == started_at && t.stopped_at == Some(stopped_at)
                        && t.total_duration == d && t.created_by@ == user.id@ && !entry_key_taken(
                        old(self).entries@,
                        project_id@,
                        t.id@,
                    ) && final(self).entries@ == old(self).entries@.push(t)
                        && final(ps).projects@ == old(ps).projects@.update(
                        i,
                        (Project {
                            total_duration: (p.total_duration + d) as u64,
                            modified_at: Some(now),
                            modified_by: Some(user.id),
                            ..p
                        }),
                    ))
                })
            }),
            r is Err ==> final(self).entries@ == old(self).entries@ && final(ps).projects@ == old(
                ps,
            ).projects@,
            crate::consistency::consistent(old(ps).projects@, old(self).entries@)
                && crate::consistency::project_ids_unique(old(ps).projects@)
                ==> crate::consistency::consistent(final(ps).projects@, final(self).entries@)
                && crate::consistency::project_ids_unique(final(ps).projects@),
    {
        let id = ids::fresh_uuid();
        self.create_with_id(ps, user, project_id, started_at, stopped_at, comment, id, now)
    }

    /// Edits a finished entry's interval: the entry's duration is recomputed
    /// from the new interval, and the difference is propagated into the
    /// project's stored aggregate, both in one step. An in-progress entry is
    /// not an editable target and is reported as `NotFound`.
    pub fn update(
        &mut self,
        ps: &mut ProjectService,
        user: &User,
        project_id: String,
        time_track_id: String,
        new_started_at: u64,
        new_stopped_at: u64,
        now: u64,
    ) -> (r: Result<(TimeTrack, String), TimeTrackError>)
        ensures
            final(ps).max_projects == old(ps).max_projects,
            ({
                let i = find_project(old(ps).projects@, user.id@, project_id@);
                &&& i == -1 ==> r == Err::<(TimeTrack, String), TimeTrackError>(
                    TimeTrackError::ProjectNotFound,
                )
                &&& i >= 0 ==> ({
                    let p = old(ps).projects@[i];
                    let j = find_entry(old(self).entries@, project_id@, time_track_id@);
                    let e = old(self).entries@[j];
                    let d = crate::spec_interval_seconds(new_started_at, new_stopped_at);
                    let remainder = p.total_duration - e.total_duration;
                    &&& j == -1 ==> r == Err::<(TimeTrack, String), TimeTrackError>(
                        TimeTrackError::NotFound,
                    )
                    &&& j >= 0 && e.status is InProgress ==> r == Err::<
                        (TimeTrack, String),
                        TimeTrackError,
                    >(TimeTrackError::NotFound)
                    &&& j >= 0 && e.status is Finished && (remainder < 0 || remainder + d
                        > u64::MAX) ==> (r matches Err(TimeTrackError::Unknown(_)))
                    &&& j >= 0 && e.status is Finished && 0 <= remainder && remainder + d
                        <= u64::MAX ==> (r matches Ok((t, n)) && n@ == p.name@ && t == (TimeTrack {
                        started_at: new_started_at,
                        stopped_at: Some(new_stopped_at),
                        total_duration: d as u64,
                        ..e
                    }) && final(self).entries@ == old(self).entries@.update(j, t)
                        && final(ps).projects@ == old(ps).projects@.update(
                        i,
                        (Project {
                            total_duration: (remainder + d) as u64,
                            modified_at: Some(now),
                            modified_by: Some(user.id),
                            ..p
                        }),
                    ))
                })
            }),
            r is Err ==> final(self).entries@ == old(self).entries@ && final(ps).projects@ == old(
                ps,
            ).projects@,
            crate::consistency::consistent(old(ps).projects@, old(self).entries@)
                && crate::consistency::project_ids_unique(old(ps).projects@)
                ==> crate::consistency::consistent(final(ps).projects@, final(self).entries@)
                && crate::consistency::project_ids_unique(final(ps).projects@),
    {
        match ps.find_index(user.id.as_str(), project_id.as_str()) {
            None => Err(TimeTrackError::ProjectNotFound),
            Some(i) => {
                proof {
                    crate::project_service::lemma_find_project_from(
                        ps.projects@,
                        user.id@,
                        project_id@,
                        0,
                    );
                }
                let stored = &ps.projects[i];
                match self.find_entry_index(project_id.as_str(), time_track_id.as_str()) {
                    None => Err(TimeTrackError::NotFound),
                    Some(j) => {
                        proof {
                            lemma_find_entry_from(self.entries@, project_id@, time_track_id@, 0);
                        }
                        let e = &self.entries[j];
                        if matches!(e.status, TimeTrackStatus::InProgress) {
                            return Err(TimeTrackError::NotFound);
                        }
                        if stored.total_duration < e.total_duration {
                            return Err(
                                TimeTrackError::Unknown("project duration underflow".to_owned()),
                            );
                        }
                        let remainder = stored.total_duration - e.total_duration;
                        let d = crate::interval_seconds(new_started_at, new_stopped_at);
                        if remainder > u64::MAX - d {
                            return Err(
                                TimeTrackError::Unknown("project duration overflow".to_owned()),
                            );
                        }
                        let mut t = e.clone();
                        t.started_at = new_started_at;
                        t.stopped_at = Some(new_stopped_at);
                        t.total_duration = d;
                        let q = Project {
                            id: stored.id.clone(),
                            name: stored.name.clone(),
                            status: stored.status,
                            total_duration: remainder + d,
                            created_at: stored.created_at,
                            created_by: stored.created_by.clone(),
                            modified_at: Some(now),
                            modified_by: Some(user.id.clone()),
                        };
                        let name_out = stored.name.clone();
                        proof {
                            let p = ps.projects@[i as int];
                            let ee = self.entries@[j as int];
                            let dd = crate::spec_interval_seconds(new_started_at, new_stopped_at);
                            assert(t =~= (TimeTrack {
                                started_at: new_started_at,
                                stopped_at: Some(new_stopped_at),
                                total_duration: dd as u64,
                                ..ee
                            }));
                            assert(q =~= (Project {
                                total_duration: (p.total_duration - ee.total_duration + dd) as u64,
                                modified_at: Some(now),
                                modified_by: Some(user.id),
                                ..p
                            }));
                        }
                        ps.projects.set(i, q);
                        let t_out = t.clone();
                        self.entries.set(j, t);
                        proof {
                            if crate::consistency::consistent(
                                old(ps).projects@,
                                old(self).entries@,
                            ) && crate::consistency::project_ids_unique(old(ps).projects@) {
                                crate::consistency::lemma_edit_entry_preserves(
                                    old(ps).projects@,
                                    old(self).entries@,
                                    i as int,
                                    j as int,
                                    ps.projects@[i as int],
                                    self.entries@[j as int],
                                );
                            }
                        }
                        Ok((t_out, name_out))
                    },
                }
            },
        }
    }

    /// Deletes one entry, conditional on the caller owning it. A finished
    /// entry's duration is subtracted from the project's stored aggregate; a
    /// deleted in-progress entry leaves the aggregate untouched and flips
    /// the project back to Inactive, so that an active project never lacks
    /// its in-progress entry.
    pub fn delete(
        &mut self,
        ps: &mut ProjectService,
        user: &User,
        project_id: String,
        time_track_id: String,
        now: u64,
    ) -> (r: Result<(), TimeTrackError>)
        ensures
            final(ps).max_projects == old(ps).max_projects,
            ({
                let i = find_project(old(ps).projects@, user.id@, project_id@);
                &&& i == -1 ==> r == Err::<(), TimeTrackError>(TimeTrackError::ProjectNotFound)
                &&& i >= 0 ==> ({
                    let p = old(ps).projects@[i];
                    let j = find_entry(old(self).entries@, project_id@, time_track_id@);
                    let e = old(self).entries@[j];
                    &&& j == -1 ==> r == Err::<(), TimeTrackError>(TimeTrackError::NotFound)
                    &&& j >= 0 && e.created_by@ != user.id@ ==> r == Err::<(), TimeTrackError>(
                        TimeTrackError::NotFound,
                    )
                    &&& j >= 0 && e.created_by@ == user.id@ && e.status is Finished
                        && p.total_duration < e.total_duration ==> (r matches Err(
                        TimeTrackError::Unknown(_),
                    ))
                    &&& j >= 0 && e.created_by@ == user.id@ && e.status is Finished
                        && p.total_duration >= e.total_duration ==> (r == Ok::<(), TimeTrackError>(
                        (),
                    ) && final(self).entries@ == old(self).entries@.remove(j)
                        && final(ps).projects@ == old(ps).projects@.update(
                        i,
                        (Project {
                            total_duration: (p.total_duration - e.total_duration) as u64,
                            modified_at: Some(now),
                            modified_by: Some(user.id),
                            ..p
                        }),
                    ))
                    &&& j >= 0 && e.created_by@ == user.id@ && e.status is InProgress ==> (r
                        == Ok::<(), TimeTrackError>(()) && final(self).entries@ == old(
                        self,
                    ).entries@.remove(j) && final(ps).projects@ == old(ps).projects@.update(
                        i,
                        (Project {
                            status: ProjectStatus::Inactive,
                            modified_at: Some(now),
                            modified_by: Some(user.id),
                            ..p
                        }),
                    ))
                })
            }),
            r is Err ==> final(self).entries@ == old(self).entries@ && final(ps).projects@ == old(
                ps,
            ).projects@,
            crate::consistency::consistent(old(ps).projects@, old(self).entries@)
                && crate::consistency::project_ids_unique(old(ps).projects@)
                ==> crate::consistency::consistent(final(ps).projects@, final(self).entries@)
                && crate::consistency::project_ids_unique(final(ps).projects@),
    {
        match ps.find_index(user.id.as_str(), project_id.as_str()) {
            None => Err(TimeTrackError::ProjectNotFound),
            Some(i) => {
                proof {
                    crate::project_service::lemma_find_project_from(
                        ps.projects@,
                        user.id@,
                        project_id@,
                        0,
                    );
                }
                let stored = &ps.projects[i];
                match self.find_entry_index(project_id.as_str(), time_track_id.as_str()) {
                    None => Err(TimeTrackError::NotFound),
                    Some(j) => {
                        proof {
                            lemma_find_entry_from(self.entries@, project_id@, time_track_id@, 0);
                        }
                        let e = &self.entries[j];
                        if !crate::str_eq(e.created_by.as_str(), user.id.as_str()) {
                            return Err(TimeTrackError::NotFound);
                        }
                        let finished = matches!(e.status, TimeTrackStatus::Finished);
                        if finished && stored.total_duration < e.total_duration {
                            return Err(
                                TimeTrackError::Unknown("project duration underflow".to_owned()),
                            );
                        }
                        let q = Project {
                            id: stored.id.clone(),
                            name: stored.name.clone(),
                            status: if finished {
                                stored.status
                            } else {
                                ProjectStatus::Inactive
                            },
                            total_duration: if finished {
                                stored.total_duration - e.total_duration
                            } else {
                                stored.total_duration
                            },
                            created_at: stored.created_at,
                            created_by: stored.created_by.clone(),
                            modified_at: Some(now),
                            modified_by: Some(user.id.clone()),
                        };
                        proof {
                            let p = ps.projects@[i as int];
                            let ee = self.entries@[j as int];
                            if ee.status is Finished {
                                assert(q =~= (Project {
                                    total_duration: (p.total_duration - ee.total_duration) as u64,
                                    modified_at: Some(now),
                                    modified_by: Some(user.id),
                                    ..p
                                }));
                            } else {
                                assert(q =~= (Project {
                                    status: ProjectStatus::Inactive,
                                    modified_at: Some(now),
                                    modified_by: Some(user.id),
                                    ..p
                                }));
                            }
                        }
                        ps.projects.set(i, q);
                        let ghost was_finished = old(self).entries@[j as int].status
                            is Finished;
                        self.entries.remove(j);
                        proof {
                            if crate::consistency::consistent(
                                old(ps).projects@,
                                old(self).entries@,
                            ) && crate::consistency::project_ids_unique(old(ps).projects@) {
                                if was_finished {
                                    crate::consistency::lemma_delete_finished_entry_preserves(
                                        old(ps).projects@,
                                        old(self).entries@,
                                        i as int,
                                        j as int,
                                        ps.projects@[i as int],
                                    );
                                } else {
                                    crate::consistency::lemma_delete_in_progress_entry_preserves(
                                        old(ps).projects@,
                                        old(self).entries@,
                                        i as int,
                                        j as int,
                                        ps.projects@[i as int],
                                    );
                                }
                            }
                        }
                        Ok(())
                    },
                }
            },
        }
    }

    /// Deletes every entry of the project, as the first half of a project
    /// deletion; a project with no entries is a no-op. The project's
    /// aggregate is not touched: the record itself is about to be deleted.
    pub fn delete_for_project(&mut self, ps: &ProjectService, user: &User, project_id: &str) -> (r:
        Result<(), TimeTrackError>)
        ensures
            ({
                let i = find_project(ps.projects@, user.id@, project_id@);
                &&& i == -1 ==> r == Err::<(), TimeTrackError>(TimeTrackError::ProjectNotFound)
                    && final(self).entries@ == old(self).entries@
                &&& i >= 0 ==> r == Ok::<(), TimeTrackError>(()) && final(self).entries@ == old(
                    self,
                ).entries@.filter(|e: TimeTrack| e.project_id@ != project_id@)
            }),
    {
        match ps.find_index(user.id.as_str(), project_id) {
            None => Err(TimeTrackError::ProjectNotFound),
            Some(_i) => {
                let ghost pred = |e: TimeTrack| e.project_id@ != project_id@;
                let mut kept: Vec<TimeTrack> = Vec::new();
                let mut k: usize = 0;
                while k < self.entries.len()
                    invariant
                        k <= self.entries@.len(),
                        self.entries@ == old(self).entries@,
                        kept@ == self.entries@.subrange(0, k as int).filter(
                            |e: TimeTrack| e.project_id@ != project_id@,
                        ),
                    decreases self.entries@.len() - k,
                {
                    let ghost prefix = self.entries@.subrange(0, k as int);
                    let e = &self.entries[k];
                    if !crate::str_eq(e.project_id.as_str(), project_id) {
                        kept.push(e.clone());
                    }
                    proof {
                        reveal(Seq::filter);
                        let pred = |e: TimeTrack| e.project_id@ != project_id@;
                        let longer = self.entries@.subrange(0, k as int + 1);
                        assert(longer.drop_last() =~= prefix);
                        assert(longer.last() == self.entries@[k as int]);
                        if pred(longer.last()) {
                            assert(longer.filter(pred) == prefix.filter(pred).push(longer.last()));
                        } else {
                            assert(longer.filter(pred) == prefix.filter(pred));
                        }
                    }
                    k = k + 1;
                }
                proof {
                    assert(self.entries@.subrange(0, self.entries@.len() as int) =~= self.entries@);
                }
                self.entries = kept;
                Ok(())
            },
        }
    }

    /// Every entry of the project owned by the caller, sorted by starting
    /// instant ascending, each in-progress entry reported with its live
    /// elapsed duration; paired with the project's name.
    pub fn get_all(&self, ps: &ProjectService, user: &User, project_id: &str, now: u64) -> (r:
        Result<(Vec<TimeTrack>, String), TimeTrackError>)
        ensures
            ({
                let i = find_project(ps.projects@, user.id@, project_id@);
                &&& i == -1 ==> r == Err::<(Vec<TimeTrack>, String), TimeTrackError>(
                    TimeTrackError::ProjectNotFound,
                )
                &&& i >= 0 ==> (r matches Ok((v, n)) && n@ == ps.projects@[i].name@ && sorted_by(
                    v@,
                    entry_order(),
                ) && v@.to_multiset() == self.entries@.filter(
                    entry_selector(project_id@, user.id@),
                ).map_values(live_adjustment(now)).to_multiset())
            }),
    {
        match ps.find_index(user.id.as_str(), project_id) {
            None => Err(TimeTrackError::ProjectNotFound),
            Some(i) => {
                let name_out = ps.projects[i].name.clone();
                let mut collected: Vec<TimeTrack> = Vec::new();
                let mut k: usize = 0;
                while k < self.entries.len()
                    invariant
                        k <= self.entries@.len(),
                        collected@ == self.entries@.subrange(0, k as int).filter(
                            entry_selector(project_id@, user.id@),
                        ).map_values(live_adjustment(now)),
                    decreases self.entries@.len() - k,
                {
                    let ghost prefix = self.entries@.subrange(0, k as int);
                    let e = &self.entries[k];
                    if crate::str_eq(e.project_id.as_str(), project_id) && crate::str_eq(
                        e.created_by.as_str(),
                        user.id.as_str(),
                    ) {
                        let mut t = e.clone();
                        if matches!(t.status, TimeTrackStatus::InProgress) {
                            t.total_duration = crate::interval_seconds(t.started_at, now);
                        }
                        proof {
                            assert(t =~= live_adjusted(self.entries@[k as int], now));
                        }
                        collected.push(t);
                    }
                    proof {
                        reveal(Seq::filter);
                        let sel = entry_selector(project_id@, user.id@);
                        let adj = live_adjustment(now);
                        let longer = self.entries@.subrange(0, k as int + 1);
                        assert(longer.drop_last() =~= prefix);
                        assert(longer.last() == self.entries@[k as int]);
                        if sel(longer.last()) {
                            assert(longer.filter(sel) == prefix.filter(sel).push(longer.last()));
                            assert(longer.filter(sel).map_values(adj) =~= prefix.filter(
                                sel,
                            ).map_values(adj).push(adj(longer.last())));
                        } else {
                            assert(longer.filter(sel) == prefix.filter(sel));
                        }
                    }
                    k = k + 1;
                }
                proof {
                    assert(self.entries@.subrange(0, self.entries@.len() as int) =~= self.entries@);
                }
                let sorted = sort_entries_by_start(collected);
                Ok((sorted, name_out))
            },
        }
    }
}

/// Sorts entries by starting instant, ascending; the result holds exactly
/// the given entries.
fn sort_entries_by_start(v: Vec<TimeTrack>) -> (out: Vec<TimeTrack>)
    ensures
        sorted_by(out@, entry_order()),
        out@.to_multiset() == v@.to_multiset(),
{
    let mut out: Vec<TimeTrack> = Vec::new();
    let mut i: usize = 0;
    proof {
        assert(out@ =~= v@.subrange(0, 0));
    }
    while i < v.len()
        invariant
            i <= v.len(),
            sorted_by(out@, entry_order()),
            out@.to_multiset() == v@.subrange(0, i as int).to_multiset(),
        decreases v.len() - i,
    {
        let ghost snapshot = out@;
        let x = v[i].clone();
        let mut pos: usize = 0;
        while pos < out.len() && out[pos].started_at <= x.started_at
            invariant
                pos <= out.len(),
                forall|a: int| 0 <= a < pos ==> #[trigger] out@[a].started_at <= x.started_at,
            decreases out.len() - pos,
        {
            pos = pos + 1;
        }
        proof {
            assert(out@ == snapshot);
            assert forall|a: int| 0 <= a < pos implies #[trigger] snapshot[a].started_at
                <= x.started_at by {
                assert(out@[a].started_at <= x.started_at);
            }
            if (pos as int) < snapshot.len() {
                assert(snapshot[pos as int].started_at > x.started_at);
            }
        }
        out.insert(pos, x);
        proof {
            broadcast use vstd::seq_lib::group_to_multiset_ensures;

            let le = entry_order();
            snapshot.insert_ensures(pos as int, x);
            assert forall|a: int, b: int| 0 <= a < b < out@.len() implies le(
                out@[a],
                out@[b],
            ) by {
                if b < pos {
                    assert(out@[a] == snapshot[a]);
                    assert(out@[b] == snapshot[b]);
                    assert(le(snapshot[a], snapshot[b]));
                } else if a < pos && b == pos {
                    assert(out@[a] == snapshot[a]);
                    assert(out@[b] == x);
                    assert(snapshot[a].started_at <= x.started_at);
                } else if a < pos && b > pos {
                    assert(out@[a] == snapshot[a]);
                    assert(out@[b] == snapshot[b - 1]);
                    assert(le(snapshot[a], snapshot[b - 1]));
                } else if a == pos {
                    assert(out@[b] == snapshot[b - 1]);
                    assert(pos < snapshot.len());
                    assert(snapshot[pos as int].started_at > x.started_at);
                    if b - 1 > pos {
                        assert(le(snapshot[pos as int], snapshot[b - 1]));
                    }
                } else {
                    assert(out@[a] == snapshot[a - 1]);
                    assert(out@[b] == snapshot[b - 1]);
                    assert(le(snapshot[a - 1], snapshot[b - 1]));
                }
            }
            let longer = v@.subrange(0, i as int + 1);
            assert(longer.drop_last() =~= v@.subrange(0, i as int));
            assert(longer.last() == v@[i as int]);
            assert(longer =~= v@.subrange(0, i as int).push(v@[i as int]));
        }
        i = i + 1;
    }
    proof {
        assert(v@.subrange(0, v@.len() as int) =~= v@);
    }
    out
}

} // verus!
