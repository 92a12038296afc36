//! The project engine: creating, reading, renaming and deleting projects,
//! with the per-owner cap, the same-owner name-uniqueness rule, and the
//! read-time projection of an active project's live duration.

use vstd::prelude::*;
use vstd::relations::sorted_by;
use vstd::string::StringExecFns;

use crate::db::{spec_db_error_message, DbError};
use crate::ids;
use crate::project_model::{Project, ProjectStatus};
use crate::time_track_model::TimeTrack;
use crate::time_track_service::{
    find_in_progress, lemma_find_in_progress_from, spec_time_track_error_message, TimeTrackError,
    TimeTrackService,
};
use crate::user_model::{User, UserRole};

verus! {

/// The default per-owner cap on projects; administrators are exempt.
pub const DEFAULT_MAX_PROJECTS: usize = 15;

/// An error from the project engine.
#[derive(Debug, PartialEq, Eq)]
pub enum ProjectError {
    /// The project does not exist or is not owned by the caller.
    NotFound,
    /// The owner has reached the project cap.
    TooManyProjects,
    /// The owner already has a project with the same name.
    ProjectExistsWithSameName(String),
    /// Any other fault; the payload is logged, never interpreted.
    Unknown(String),
    /// An error of the time-track engine, met while reading or deleting.
    TimeTrackError(TimeTrackError),
}

/// The description of a project error.
pub open spec fn spec_project_error_message(e: ProjectError) -> Seq<char> {
    match e {
        ProjectError::NotFound => "Project not found"@,
        ProjectError::TooManyProjects => "The user has too many projects"@,
        ProjectError::ProjectExistsWithSameName(name) => "Project exists with same name: "@
            + name@,
        ProjectError::Unknown(msg) => "Unknown error: "@ + msg@,
        ProjectError::TimeTrackError(inner) => "TimeTrack error: "@
            + spec_time_track_error_message(inner),
    }
}

impl ProjectError {
    /// Renders the error as text.
    pub fn message(&self) -> (m: String)
        ensures
            m@ == spec_project_error_message(*self),
    {
        match self {
            ProjectError::NotFound => "Project not found".to_owned(),
            ProjectError::TooManyProjects => "The user has too many projects".to_owned(),
            ProjectError::ProjectExistsWithSameName(name) => {
                let mut m: String = "Project exists with same name: ".to_owned();
                m.append(name.as_str());
                m
            },
            ProjectError::Unknown(msg) => {
                let mut m: String = "Unknown error: ".to_owned();
                m.append(msg.as_str());
                m
            },
            ProjectError::TimeTrackError(inner) => {
                let mut m: String = "TimeTrack error: ".to_owned();
                let inner_text = inner.message();
                m.append(inner_text.as_str());
                m
            },
        }
    }

    /// Maps a storage fault into the project vocabulary.
    pub fn from_db_error(e: DbError) -> (r: ProjectError)
        ensures
            e is NotFound ==> r == ProjectError::NotFound,
            e matches DbError::Convertion { .. } ==> (r matches ProjectError::Unknown(m) && m@
                == spec_db_error_message(e)),
            e matches DbError::Unknown(msg) ==> (r matches ProjectError::Unknown(m) && m@ == msg@),
    {
        match e {
            DbError::NotFound => ProjectError::NotFound,
            DbError::Convertion { table, id } => {
                let m = DbError::Convertion { table, id }.message();
                ProjectError::Unknown(m)
            },
            DbError::Unknown(msg) => ProjectError::Unknown(msg),
        }
    }

    /// Wraps a time-track engine error.
    pub fn from_time_track_error(e: TimeTrackError) -> (r: ProjectError)
        ensures
            r == ProjectError::TimeTrackError(e),
    {
        ProjectError::TimeTrackError(e)
    }
}

/// Whether `p` is the project keyed by `(owner, id)`.
pub open spec fn project_matches(p: Project, owner: Seq<char>, id: Seq<char>) -> bool {
    p.created_by@ == owner && p.id@ == id
}

/// The first index at or after `k` of the project keyed by `(owner, id)`, or
/// -1 when there is none.
pub open spec fn find_project_from(ps: Seq<Project>, owner: Seq<char>, id: Seq<char>, k: int) -> int
    decreases ps.len() - k,
{
    if k < 0 || k >= ps.len() {
        -1
    } else if project_matches(ps[k], owner, id) {
        k
    } else {
        find_project_from(ps, owner, id, k + 1)
    }
}

/// The first index of the project keyed by `(owner, id)`, or -1.
pub open spec fn find_project(ps: Seq<Project>, owner: Seq<char>, id: Seq<char>) -> int {
    find_project_from(ps, owner, id, 0)
}

/// What the index found by [`find_project_from`] satisfies: -1 means no
/// project at or after `k` matches; otherwise it is the first match.
pub proof fn lemma_find_project_from(ps: Seq<Project>, owner: Seq<char>, id: Seq<char>, k: int)
    requires
        0 <= k <= ps.len(),
    ensures
        ({
            let r = find_project_from(ps, owner, id, k);
            &&& r == -1 || k <= r < ps.len()
            &&& r == -1 ==> forall|j: int|
                k <= j < ps.len() ==> !project_matches(#[trigger] ps[j], owner, id)
            &&& r >= 0 ==> k <= r < ps.len() && project_matches(ps[r], owner, id) && forall|j: int|
                k <= j < r ==> !project_matches(#[trigger] ps[j], owner, id)
        }),
    decreases ps.len() - k,
{
    if k < 0 || k >= ps.len() {
    } else if project_matches(ps[k], owner, id) {
    } else {
        lemma_find_project_from(ps, owner, id, k + 1);
    }
}

/// The number of projects owned by `owner` at or after index `k`.
pub open spec fn owned_count_from(ps: Seq<Project>, owner: Seq<char>, k: int) -> int
    decreases ps.len() - k,
{
    if k < 0 || k >= ps.len() {
        0
    } else {
        (if ps[k].created_by@ == owner {
            1int
        } else {
            0int
        }) + owned_count_from(ps, owner, k + 1)
    }
}

/// The number of projects owned by `owner`.
pub open spec fn owned_project_count(ps: Seq<Project>, owner: Seq<char>) -> int {
    owned_count_from(ps, owner, 0)
}

/// Whether `owner` already has a project named `name` (case-sensitive).
pub open spec fn owner_has_project_named(ps: Seq<Project>, owner: Seq<char>, name: Seq<char>) -> bool {
    exists|i: int|
        0 <= i < ps.len() && ps[i].created_by@ == owner && #[trigger] ps[i].name@ == name
}

/// Whether some project, of any owner, already uses the identifier `id`.
pub open spec fn project_id_taken(ps: Seq<Project>, id: Seq<char>) -> bool {
    exists|i: int| 0 <= i < ps.len() && #[trigger] ps[i].id@ == id
}

/// The instant a listing is ordered by: the last modification when there is
/// one, else the creation instant.
pub open spec fn project_sort_key(p: Project) -> int {
    match p.modified_at {
        Some(t) => t as int,
        None => p.created_at as int,
    }
}

/// Whether `a` may stand before `b` in a listing: active projects first,
/// then by sort key descending.
pub open spec fn spec_project_le(a: Project, b: Project) -> bool {
    if a.status is Active && b.status is Inactive {
        true
    } else if a.status is Inactive && b.status is Active {
        false
    } else {
        project_sort_key(a) >= project_sort_key(b)
    }
}

/// The order in which projects are listed.
pub open spec fn project_order() -> spec_fn(Project, Project) -> bool {
    |a: Project, b: Project| spec_project_le(a, b)
}

/// The selection of projects that belong to `owner`.
pub open spec fn owned_selector(owner: Seq<char>) -> spec_fn(Project) -> bool {
    |p: Project| p.created_by@ == owner
}

/// A project as it is reported at read time: an active project carries its
/// live elapsed duration on top of the stored aggregate.
pub open spec fn live_projection(ts: Seq<TimeTrack>, owner: Seq<char>, now: u64) -> spec_fn(
    Project,
) -> Project {
    |p: Project|
        if p.status is Active {
            Project {
                total_duration: (p.total_duration + crate::spec_interval_seconds(
                    ts[find_in_progress(ts, p.id@, owner)].started_at,
                    now,
                )) as u64,
                ..p
            }
        } else {
            p
        }
}

/// Whether reading `p` must fail because it is active with no in-progress
/// entry: a broken invariant, never silently repaired.
pub open spec fn projection_missing(p: Project, ts: Seq<TimeTrack>, owner: Seq<char>) -> bool {
    p.status is Active && find_in_progress(ts, p.id@, owner) == -1
}

/// Whether reading `p` must fail because its projected duration does not
/// fit in a duration value.
pub open spec fn projection_overflow(p: Project, ts: Seq<TimeTrack>, owner: Seq<char>, now: u64) -> bool {
    p.status is Active && find_in_progress(ts, p.id@, owner) >= 0 && p.total_duration
        + crate::spec_interval_seconds(ts[find_in_progress(ts, p.id@, owner)].started_at, now)
        > u64::MAX
}

/// The record persisted by the generic update: the stored record with the
/// mutable fields taken from `p` and the modification stamp set.
pub open spec fn updated_record(stored: Project, p: Project, owner_id: String, now: u64) -> Project {
    Project {
        id: stored.id,
        name: p.name,
        status: p.status,
        total_duration: p.total_duration,
        created_at: stored.created_at,
        created_by: stored.created_by,
        modified_at: Some(now),
        modified_by: Some(owner_id),
    }
}

/// The project engine. It owns the project records; the per-owner cap is
/// fixed at construction.
#[derive(Debug)]
pub struct ProjectService {
    pub projects: Vec<Project>,
    pub max_projects: usize,
}

impl ProjectService {
    /// Whether `user` may not create one more project.
    pub open spec fn cap_reached(&self, user: &User) -> bool {
        user.role != UserRole::Admin && owned_project_count(self.projects@, user.id@)
            >= self.max_projects
    }

    /// An engine with no projects and the default cap.
    pub fn new() -> (s: ProjectService)
        ensures
            s.projects@.len() == 0,
            s.max_projects == DEFAULT_MAX_PROJECTS,
    {
        ProjectService { projects: Vec::new(), max_projects: DEFAULT_MAX_PROJECTS }
    }

    /// An engine with no projects and the given per-owner cap.
    pub fn with_max_projects(max_projects: usize) -> (s: ProjectService)
        ensures
            s.projects@.len() == 0,
            s.max_projects == max_projects,
    {
        ProjectService { projects: Vec::new(), max_projects }
    }

    /// Finds the index of the project keyed by `(owner, project_id)`.
    pub(crate) fn find_index(&self, owner: &str, project_id: &str) -> (r: Option<usize>)
        ensures
            match r {
                Some(i) => find_project(self.projects@, owner@, project_id@) == i && i
                    < self.projects@.len(),
                None => find_project(self.projects@, owner@, project_id@) == -1,
            },
    {
        let ps = &self.projects;
        let mut i: usize = 0;
        while i < ps.len()
            invariant
                i <= ps.len(),
                ps@ == self.projects@,
                find_project(ps@, owner@, project_id@) == find_project_from(
                    ps@,
                    owner@,
                    project_id@,
                    i as int,
                ),
            decreases ps.len() - i,
        {
            let p = &ps[i];
            if crate::str_eq(p.created_by.as_str(), owner) && crate::str_eq(
                p.id.as_str(),
                project_id,
            ) {
                return Some(i);
            }
            i = i + 1;
        }
        None
    }

    /// Counts the projects owned by `owner`.
    fn count_owned(&self, owner: &str) -> (c: usize)
        ensures
            c == owned_project_count(self.projects@, owner@),
    {
        let ps = &self.projects;
        let mut c: usize = 0;
        let mut i: usize = 0;
        while i < ps.len()
            invariant
                i <= ps.len(),
                ps@ == self.projects@,
                c <= i,
                c + owned_count_from(ps@, owner@, i as int) == owned_project_count(ps@, owner@),
            decreases ps.len() - i,
        {
            if crate::str_eq(ps[i].created_by.as_str(), owner) {
                c = c + 1;
            }
            i = i + 1;
        }
        c
    }

    /// Whether `owner` already has a project named `name`.
    fn name_taken(&self, owner: &str, name: &str) -> (b: bool)
        ensures
            b == owner_has_project_named(self.projects@, owner@, name@),
    {
        let ps = &self.projects;
        let mut i: usize = 0;
        while i < ps.len()
            invariant
                i <= ps.len(),
                ps@ == self.projects@,
                forall|j: int|
                    0 <= j < i ==> !(ps@[j].created_by@ == owner@ && #[trigger] ps@[j].name@
                        == name@),
            decreases ps.len() - i,
        {
            if crate::str_eq(ps[i].created_by.as_str(), owner) && crate::str_eq(
                ps[i].name.as_str(),
                name,
            ) {
                return true;
            }
            i = i + 1;
        }
        false
    }

    /// Whether any project already uses the identifier `id`.
    fn id_taken(&self, id: &str) -> (b: bool)
        ensures
            b == project_id_taken(self.projects@, id@),
    {
        let ps = &self.projects;
        let mut i: usize = 0;
        while i < ps.len()
            invariant
                i <= ps.len(),
                ps@ == self.projects@,
                forall|j: int| 0 <= j < i ==> !(#[trigger] ps@[j].id@ == id@),
            decreases ps.len() - i,
        {
            if crate::str_eq(ps[i].id.as_str(), id) {
                return true;
            }
            i = i + 1;
        }
        false
    }

    /// Creates a project under a caller-supplied identifier. Rejects, in this
    /// order: an owner at the cap (unless admin), a same-owner name clash,
    /// and an identifier already in use.
    pub fn create_with_id(&mut self, user: &User, project_name: String, id: String, now: u64) -> (r:
        Result<Project, ProjectError>)
        ensures
            final(self).max_projects == old(self).max_projects,
            old(self).cap_reached(user) ==> r == Err::<Project, ProjectError>(
                ProjectError::TooManyProjects,
            ),
            !old(self).cap_reached(user) && owner_has_project_named(
                old(self).projects@,
                user.id@,
                project_name@,
            ) ==> (r matches Err(ProjectError::ProjectExistsWithSameName(n)) && n == project_name),
            !old(self).cap_reached(user) && !owner_has_project_named(
                old(self).projects@,
                user.id@,
                project_name@,
            ) && project_id_taken(old(self).projects@, id@) ==> r matches Err(
                ProjectError::Unknown(_),
            ),
            !old(self).cap_reached(user) && !owner_has_project_named(
                old(self).projects@,
                user.id@,
                project_name@,
            ) && !project_id_taken(old(self).projects@, id@) ==> (r matches Ok(p) && p.id == id
                && p.name == project_name && p.status is Inactive && p.total_duration == 0
                && p.created_at == now && p.created_by@ == user.id@ && p.modified_at is None
                && p.modified_by is None && final(self).projects@ == old(self).projects@.push(p)),
            r is Err ==> final(self).projects@ == old(self).projects@,
    {
        let owner = user.id.as_str();
        if !matches!(user.role, UserRole::Admin) && self.count_owned(owner) >= self.max_projects {
            return Err(ProjectError::TooManyProjects);
        }
        if self.name_taken(owner, project_name.as_str()) {
            return Err(ProjectError::ProjectExistsWithSameName(project_name));
        }
        if self.id_taken(id.as_str()) {
            return Err(ProjectError::Unknown("project id already in use".to_owned()));
        }
        let p = Project {
            id,
            name: project_name,
            status: ProjectStatus::Inactive,
            total_duration: 0,
            created_at: now,
            created_by: user.id.clone(),
            modified_at: None,
            modified_by: None,
        };
        let q = p.clone();
        self.projects.push(q);
        Ok(p)
    }

    /// Creates a project with a fresh identifier. Success is owed whenever
    /// the cap and the name-uniqueness rule allow it, unless the freshly
    /// drawn identifier collides with an existing one.
    pub fn create(&mut self, user: &User, project_name: String, now: u64) -> (r: Result<
        Project,
        ProjectError,
    >)
        ensures
            final(self).max_projects == old(self).max_projects,
            old(self).cap_reached(user) ==> r == Err::<Project, ProjectError>(
                ProjectError::TooManyProjects,
            ),
            !old(self).cap_reached(user) && owner_has_project_named(
                old(self).projects@,
                user.id@,
                project_name@,
            ) ==> (r matches Err(ProjectError::ProjectExistsWithSameName(n)) && n == project_name),
            !old(self).cap_reached(user) && !owner_has_project_named(
                old(self).projects@,
                user.id@,
                project_name@,
            ) ==> (r is Ok || r matches Err(ProjectError::Unknown(_))),
            r matches Ok(p) ==> (p.id@.len() == 36 && p.name == project_name
                && p.status is Inactive && p.total_duration == 0 && p.created_at == now
                && p.created_by@ == user.id@ && p.modified_at is None && p.modified_by is None
                && !project_id_taken(old(self).projects@, p.id@) && final(self).projects@ == old(
                self,
            ).projects@.push(p)),
            r is Err ==> final(self).projects@ == old(self).projects@,
    {
        let id = ids::fresh_uuid();
        self.create_with_id(user, project_name, id, now)
    }

    /// Replaces the stored record's name, status and aggregate duration with
    /// those of `project` and sets the modification stamp; the stored
    /// creation fields are kept. Returns the persisted record.
    pub fn update(&mut self, user: &User, project: &Project, now: u64) -> (r: Result<
        Project,
        ProjectError,
    >)
        ensures
            final(self).max_projects == old(self).max_projects,
            ({
                let i = find_project(old(self).projects@, user.id@, project.id@);
                &&& i == -1 ==> r == Err::<Project, ProjectError>(ProjectError::NotFound)
                    && final(self).projects@ == old(self).projects@
                &&& i >= 0 ==> ({
                    let q = updated_record(old(self).projects@[i], *project, user.id, now);
                    r == Ok::<Project, ProjectError>(q) && final(self).projects@ == old(
                        self,
                    ).projects@.update(i, q)
                })
            }),
    {
        match self.find_index(user.id.as_str(), project.id.as_str()) {
            None => Err(ProjectError::NotFound),
            Some(i) => {
                let stored = &self.projects[i];
                let q = Project {
                    id: stored.id.clone(),
                    name: project.name.clone(),
                    status: project.status,
                    total_duration: project.total_duration,
                    created_at: stored.created_at,
                    created_by: stored.created_by.clone(),
                    modified_at: Some(now),
                    modified_by: Some(user.id.clone()),
                };
                let out = q.clone();
                self.projects.set(i, q);
                Ok(out)
            },
        }
    }

    /// Re-fetches the project, replaces its name, and persists it with an
    /// updated modification stamp. Returns the persisted record.
    pub fn update_name(&mut self, user: &User, project_id: String, new_project_name: String, now:
        u64) -> (r: Result<Project, ProjectError>)
        ensures
            final(self).max_projects == old(self).max_projects,
            ({
                let i = find_project(old(self).projects@, user.id@, project_id@);
                &&& i == -1 ==> r == Err::<Project, ProjectError>(ProjectError::NotFound)
                    && final(self).projects@ == old(self).projects@
                &&& i >= 0 ==> ({
                    let stored = old(self).projects@[i];
                    let q = Project {
                        name: new_project_name,
                        modified_at: Some(now),
                        modified_by: Some(user.id),
                        ..stored
                    };
                    r == Ok::<Project, ProjectError>(q) && final(self).projects@ == old(
                        self,
                    ).projects@.update(i, q)
                })
            }),
            forall|ts: Seq<TimeTrack>|
                crate::consistency::consistent(old(self).projects@, ts)
                    ==> crate::consistency::consistent(final(self).projects@, ts),
            crate::consistency::project_ids_unique(old(self).projects@)
                ==> crate::consistency::project_ids_unique(final(self).projects@),
    {
        match self.find_index(user.id.as_str(), project_id.as_str()) {
            None => Err(ProjectError::NotFound),
            Some(i) => {
                let stored = &self.projects[i];
                let q = Project {
                    id: stored.id.clone(),
                    name: new_project_name,
                    status: stored.status,
                    total_duration: stored.total_duration,
                    created_at: stored.created_at,
                    created_by: stored.created_by.clone(),
                    modified_at: Some(now),
                    modified_by: Some(user.id.clone()),
                };
                let out = q.clone();
                self.projects.set(i, q);
                Ok(out)
            },
        }
    }

    /// Fetches a project. An active project is returned with its live
    /// elapsed duration added to the reported (never the stored) aggregate;
    /// an active project with no in-progress entry is a broken invariant,
    /// surfaced as a wrapped `NoInProgressTimeTracking` error, never patched.
    pub fn get(&self, user: &User, project_id: &str, ts: &TimeTrackService, now: u64) -> (r: Result<
        Project,
        ProjectError,
    >)
        ensures
            ({
                let i = find_project(self.projects@, user.id@, project_id@);
                &&& i == -1 ==> r == Err::<Project, ProjectError>(ProjectError::NotFound)
                &&& i >= 0 ==> ({
                    let p = self.projects@[i];
                    let j = find_in_progress(ts.entries@, p.id@, user.id@);
                    let live = crate::spec_interval_seconds(ts.entries@[j].started_at, now);
                    &&& p.status is Inactive ==> r == Ok::<Project, ProjectError>(p)
                    &&& p.status is Active && j == -1 ==> (r matches Err(
                        ProjectError::TimeTrackError(TimeTrackError::NoInProgressTimeTracking(n)),
                    ) && n@ == p.name@)
                    &&& p.status is Active && j >= 0 && p.total_duration + live <= u64::MAX ==> r
                        == Ok::<Project, ProjectError>(
                        Project { total_duration: (p.total_duration + live) as u64, ..p },
                    )
                    &&& p.status is Active && j >= 0 && p.total_duration + live > u64::MAX ==> r
                        matches Err(ProjectError::Unknown(_))
                })
            }),
            crate::consistency::consistent(self.projects@, ts.entries@) ==> !(r matches Err(
                ProjectError::TimeTrackError(_),
            )),
    {
        match self.find_index(user.id.as_str(), project_id) {
            None => Err(ProjectError::NotFound),
            Some(i) => {
                proof {
                    lemma_find_project_from(self.projects@, user.id@, project_id@, 0);
                }
                let stored = &self.projects[i];
                match stored.status {
                    ProjectStatus::Inactive => Ok(stored.clone()),
                    ProjectStatus::Active => {
                        proof {
                            lemma_find_in_progress_from(ts.entries@, stored.id@, user.id@, 0);
                            if crate::consistency::consistent(self.projects@, ts.entries@) {
                                crate::consistency::lemma_active_project_has_live_entry(
                                    self.projects@,
                                    ts.entries@,
                                    i as int,
                                );
                            }
                        }
                        match ts.get_in_progress(user, stored.id.as_str(), stored.name.as_str(), now) {
                            Err(e) => Err(ProjectError::TimeTrackError(e)),
                            Ok(t) => {
                                if stored.total_duration <= u64::MAX - t.total_duration {
                                    let mut q = stored.clone();
                                    q.total_duration = q.total_duration + t.total_duration;
                                    proof {
                                        let p = self.projects@[i as int];
                                        let j = find_in_progress(ts.entries@, p.id@, user.id@);
                                        let live = crate::spec_interval_seconds(
                                            ts.entries@[j].started_at,
                                            now,
                                        );
                                        assert(q =~= Project {
                                            total_duration: (p.total_duration + live) as u64,
                                            ..p
                                        });
                                    }
                                    Ok(q)
                                } else {
                                    Err(
                                        ProjectError::Unknown(
                                            "project duration overflow".to_owned(),
                                        ),
                                    )
                                }
                            },
                        }
                    },
                }
            },
        }
    }

    /// Deletes a project: first every time-track entry of the project is
    /// deleted (tolerating a project with none), and only then the project
    /// record itself.
    pub fn delete(&mut self, user: &User, project_id: &str, ts: &mut TimeTrackService) -> (r:
        Result<(), ProjectError>)
        ensures
            final(self).max_projects == old(self).max_projects,
            ({
                let i = find_project(old(self).projects@, user.id@, project_id@);
                &&& i == -1 ==> r == Err::<(), ProjectError>(ProjectError::NotFound)
                    && final(self).projects@ == old(self).projects@ && final(ts).entries@ == old(
                    ts,
                ).entries@
                &&& i >= 0 ==> r == Ok::<(), ProjectError>(()) && final(self).projects@ == old(
                    self,
                ).projects@.remove(i) && final(ts).entries@ == old(ts).entries@.filter(
                    |e: TimeTrack| e.project_id@ != project_id@,
                )
            }),
            crate::consistency::consistent(old(self).projects@, old(ts).entries@)
                && crate::consistency::project_ids_unique(old(self).projects@)
                ==> crate::consistency::consistent(final(self).projects@, final(ts).entries@)
                && crate::consistency::project_ids_unique(final(self).projects@),
    {
        proof {
            lemma_find_project_from(self.projects@, user.id@, project_id@, 0);
        }
        match ts.delete_for_project(self, user, project_id) {
            Ok(()) => (),
            Err(e) => {
                match e {
                    TimeTrackError::ProjectNotFound => (),
                    other => {
                        return Err(ProjectError::Unknown(other.message()));
                    },
                }
            },
        }
        match self.find_index(user.id.as_str(), project_id) {
            None => Err(ProjectError::NotFound),
            Some(i) => {
                proof {
                    lemma_find_project_from(self.projects@, user.id@, project_id@, 0);
                }
                self.projects.remove(i);
                proof {
                    if crate::consistency::consistent(old(self).projects@, old(ts).entries@)
                        && crate::consistency::project_ids_unique(old(self).projects@) {
                        crate::consistency::lemma_delete_project_preserves(
                            old(self).projects@,
                            old(ts).entries@,
                            i as int,
                        );
                        let ghost stored = old(self).projects@[i as int];
                        let ghost pid = stored.id@;
                        let exec_pred = |e: TimeTrack| e.project_id@ != project_id@;
                        let law_pred = |e: TimeTrack| e.project_id@ != pid;
                        assert(exec_pred =~= law_pred);
                    }
                }
                Ok(())
            },
        }
    }

    /// Every project of the caller, active projects first and then by last
    /// modification (falling back to creation) descending, each active
    /// project reported with its live elapsed duration added. Fails, as
    /// [`Self::get`] does, on an active project with no in-progress entry or
    /// with a projected duration out of range.
    pub fn get_all(&self, user: &User, ts: &TimeTrackService, now: u64) -> (r: Result<
        Vec<Project>,
        ProjectError,
    >)
        ensures
            ({
                let owner = user.id@;
                let target = self.projects@.filter(owned_selector(owner)).map_values(
                    live_projection(ts.entries@, owner, now),
                );
                &&& r matches Ok(v) ==> (sorted_by(v@, project_order()) && v@.to_multiset()
                    == target.to_multiset() && forall|q: int|
                    0 <= q < self.projects@.len() && (#[trigger] self.projects@[q]).created_by@
                        == owner ==> !projection_missing(self.projects@[q], ts.entries@, owner)
                        && !projection_overflow(self.projects@[q], ts.entries@, owner, now))
                &&& r is Err ==> (exists|q: int|
                    0 <= q < self.projects@.len() && (#[trigger] self.projects@[q]).created_by@
                        == owner && (projection_missing(self.projects@[q], ts.entries@, owner)
                        || projection_overflow(self.projects@[q], ts.entries@, owner, now)))
                &&& r matches Err(ProjectError::TimeTrackError(
                    TimeTrackError::NoInProgressTimeTracking(n),
                )) ==> (exists|q: int|
                    0 <= q < self.projects@.len() && (#[trigger] self.projects@[q]).created_by@
                        == owner && projection_missing(self.projects@[q], ts.entries@, owner) && n@
                        == self.projects@[q].name@)
                &&& r is Err ==> (r matches Err(ProjectError::TimeTrackError(
                    TimeTrackError::NoInProgressTimeTracking(_),
                )) || r matches Err(ProjectError::Unknown(_)))
            }),
            crate::consistency::consistent(self.projects@, ts.entries@) ==> !(r matches Err(
                ProjectError::TimeTrackError(_),
            )),
    {
        let owner = user.id.as_str();
        let mut collected: Vec<Project> = Vec::new();
        let mut k: usize = 0;
        proof {
            assert(collected@ =~= self.projects@.subrange(0, 0).filter(
                owned_selector(user.id@),
            ).map_values(live_projection(ts.entries@, user.id@, now)));
        }
        while k < self.projects.len()
            invariant
                owner@ == user.id@,
                k <= self.projects@.len(),
                collected@ == self.projects@.subrange(0, k as int).filter(
                    owned_selector(user.id@),
                ).map_values(live_projection(ts.entries@, user.id@, now)),
                forall|q: int|
                    0 <= q < k && (#[trigger] self.projects@[q]).created_by@ == user.id@
                        ==> !projection_missing(self.projects@[q], ts.entries@, user.id@)
                        && !projection_overflow(self.projects@[q], ts.entries@, user.id@, now),
            decreases self.projects@.len() - k,
        {
            let ghost prefix = self.projects@.subrange(0, k as int);
            let p = &self.projects[k];
            if crate::str_eq(p.created_by.as_str(), owner) {
                if matches!(p.status, ProjectStatus::Active) {
                    proof {
                        lemma_find_in_progress_from(ts.entries@, p.id@, user.id@, 0);
                    }
                    match ts.find_in_progress_index(p.id.as_str(), owner) {
                        None => {
                            proof {
                                assert((#[trigger] self.projects@[k as int]).created_by@
                                    == user.id@ && projection_missing(
                                    self.projects@[k as int],
                                    ts.entries@,
                                    user.id@,
                                ));
                                if crate::consistency::consistent(self.projects@, ts.entries@) {
                                    crate::consistency::lemma_active_project_has_live_entry(
                                        self.projects@,
                                        ts.entries@,
                                        k as int,
                                    );
                                }
                            }
                            return Err(
                                ProjectError::TimeTrackError(
                                    TimeTrackError::NoInProgressTimeTracking(p.name.clone()),
                                ),
                            );
                        },
                        Some(j) => {
                            let live = crate::interval_seconds(ts.entries[j].started_at, now);
                            if p.total_duration > u64::MAX - live {
                                proof {
                                    assert((#[trigger] self.projects@[k as int]).created_by@
                                        == user.id@ && projection_overflow(
                                        self.projects@[k as int],
                                        ts.entries@,
                                        user.id@,
                                        now,
                                    ));
                                }
                                return Err(
                                    ProjectError::Unknown("project duration overflow".to_owned()),
                                );
                            }
                            let mut t = p.clone();
                            t.total_duration = t.total_duration + live;
                            proof {
                                let f = live_projection(ts.entries@, user.id@, now);
                                assert(t =~= f(self.projects@[k as int]));
                            }
                            collected.push(t);
                        },
                    }
                } else {
                    let t = p.clone();
                    proof {
                        let f = live_projection(ts.entries@, user.id@, now);
                        assert(t =~= f(self.projects@[k as int]));
                    }
                    collected.push(t);
                }
            }
            proof {
                reveal(Seq::filter);
                let sel = owned_selector(user.id@);
                let f = live_projection(ts.entries@, user.id@, now);
                let longer = self.projects@.subrange(0, k as int + 1);
                assert(longer.drop_last() =~= prefix);
                assert(longer.last() == self.projects@[k as int]);
                if sel(longer.last()) {
                    assert(longer.filter(sel) == prefix.filter(sel).push(longer.last()));
                    assert(longer.filter(sel).map_values(f) =~= prefix.filter(sel).map_values(
                        f,
                    ).push(f(longer.last())));
                } else {
                    assert(longer.filter(sel) == prefix.filter(sel));
                }
            }
            k = k + 1;
        }
        proof {
            assert(self.projects@.subrange(0, self.projects@.len() as int) =~= self.projects@);
        }
        let sorted = sort_projects_for_listing(collected);
        Ok(sorted)
    }
}

/// Compares two projects in listing order.
fn project_le(a: &Project, b: &Project) -> (r: bool)
    ensures
        r == spec_project_le(*a, *b),
{
    let a_active = matches!(a.status, ProjectStatus::Active);
    let b_active = matches!(b.status, ProjectStatus::Active);
    if a_active && !b_active {
        true
    } else if !a_active && b_active {
        false
    } else {
        let ka = match a.modified_at {
            Some(t) => t,
            None => a.created_at,
        };
        let kb = match b.modified_at {
            Some(t) => t,
            None => b.created_at,
        };
        ka >= kb
    }
}

/// Sorts projects into listing order; the result holds exactly the given
/// projects.
fn sort_projects_for_listing(v: Vec<Project>) -> (out: Vec<Project>)
    ensures
        sorted_by(out@, project_order()),
        out@.to_multiset() == v@.to_multiset(),
{
    let mut out: Vec<Project> = Vec::new();
    let mut i: usize = 0;
    proof {
        assert(out@ =~= v@.subrange(0, 0));
    }
    while i < v.len()
        invariant
            i <= v.len(),
            sorted_by(out@, project_order()),
            out@.to_multiset() == v@.subrange(0, i as int).to_multiset(),
        decreases v.len() - i,
    {
        let ghost snapshot = out@;
        let x = v[i].clone();
        let mut pos: usize = 0;
        while pos < out.len() && project_le(&out[pos], &x)
            invariant
                pos <= out.len(),
                forall|a: int| 0 <= a < pos ==> spec_project_le(#[trigger] out@[a], x),
            decreases out.len() - pos,
        {
            pos = pos + 1;
        }
        proof {
            assert(out@ == snapshot);
            assert forall|a: int| 0 <= a < pos implies spec_project_le(
                #[trigger] snapshot[a],
                x,
            ) by {
                assert(spec_project_le(out@[a], x));
            }
            if (pos as int) < snapshot.len() {
                assert(!spec_project_le(snapshot[pos as int], x));
                assert(spec_project_le(x, snapshot[pos as int]));
            }
        }
        out.insert(pos, x);
        proof {
            broadcast use vstd::seq_lib::group_to_multiset_ensures;

            let le = project_order();
            snapshot.insert_ensures(pos as int, x);
            assert forall|a: int, b: int| 0 <= a < b < out@.len() implies le(
                out@[a],
                out@[b],
            ) by {
                if b < pos {
                    assert(out@[a] == snapshot[a]);
                    assert(out@[b] == snapshot[b]);
                    assert(le(snapshot[a], snapshot[b]));
                } else if a < pos && b == pos {
                    assert(out@[a] == snapshot[a]);
                    assert(out@[b] == x);
                    assert(spec_project_le(snapshot[a], x));
                } else if a < pos && b > pos {
                    assert(out@[a] == snapshot[a]);
                    assert(out@[b] == snapshot[b - 1]);
                    assert(le(snapshot[a], snapshot[b - 1]));
                } else if a == pos {
                    assert(out@[b] == snapshot[b - 1]);
                    assert(pos < snapshot.len());
                    assert(spec_project_le(x, snapshot[pos as int]));
                    if b - 1 > pos {
                        assert(le(snapshot[pos as int], snapshot[b - 1]));
                    }
                } else {
                    assert(out@[a] == snapshot[a - 1]);
                    assert(out@[b] == snapshot[b - 1]);
                    assert(le(snapshot[a - 1], snapshot[b - 1]));
                }
            }
            let longer = v@.subrange(0, i as int + 1);
            assert(longer.drop_last() =~= v@.subrange(0, i as int));
            assert(longer.last() == v@[i as int]);
            assert(longer =~= v@.subrange(0, i as int).push(v@[i as int]));
        }
        i = i + 1;
    }
    proof {
        assert(v@.subrange(0, v@.len() as int) =~= v@);
    }
    out
}

} // verus!
