//! The decisions of the command-line front-end: configuration values,
//! argument shapes, and name-based project lookup. Prompting, the cache
//! file and the HTTP client are plumbing and stay outside; they hand these
//! functions plain values.

use vstd::prelude::*;
use vstd::string::StringExecFns;

use crate::project_model::{Project, ProjectStatus};

verus! {

/// An error found while loading the configuration file.
#[derive(Debug, PartialEq, Eq)]
pub enum ConfigError {
    /// The file is missing or could not be opened; the payload describes
    /// where it was expected.
    MissingFile(String),
    /// The file could not be parsed; the payload carries the parser's words.
    InvalidConfig(String),
}

impl ConfigError {
    /// Renders the error as text.
    pub fn message(&self) -> (m: String)
        ensures
            *self matches ConfigError::MissingFile(d) ==> m@
                == "Missing file or failed to open it. Expected it at path: "@ + d@,
            *self matches ConfigError::InvalidConfig(d) ==> m@
                == "The configuration file is invalid: "@ + d@,
    {
        match self {
            ConfigError::MissingFile(d) => {
                let mut m: String =
                    "Missing file or failed to open it. Expected it at path: ".to_owned();
                m.append(d.as_str());
                m
            },
            ConfigError::InvalidConfig(d) => {
                let mut m: String = "The configuration file is invalid: ".to_owned();
                m.append(d.as_str());
                m
            },
        }
    }
}

/// The front-end configuration: the caller's API key and the service URL.
#[derive(Debug)]
pub struct Config {
    api_key: String,
    sitt_url: String,
}

impl Config {
    /// The configured API key, as the contracts speak of it.
    pub closed spec fn spec_api_key(&self) -> Seq<char> {
        self.api_key@
    }

    /// The configured URL, as the contracts speak of it.
    pub closed spec fn spec_url(&self) -> Seq<char> {
        self.sitt_url@
    }

    /// A configuration from its two values.
    pub fn new(api_key: String, sitt_url: String) -> (c: Config)
        ensures
            c.spec_api_key() == api_key@,
            c.spec_url() == sitt_url@,
    {
        Config { api_key, sitt_url }
    }

    /// The caller's API key.
    pub fn get_api_key(&self) -> (k: &str)
        ensures
            k@ == self.spec_api_key(),
    {
        self.api_key.as_str()
    }

    /// The URL the service is hosted at.
    pub fn get_url(&self) -> (u: &str)
        ensures
            u@ == self.spec_url(),
    {
        self.sitt_url.as_str()
    }
}

/// The argument naming a project, if one was given on the command line.
#[derive(Debug)]
pub struct NameArg {
    pub name: Option<String>,
}

/// The arguments of the start command: a project name and a comment, each
/// optional.
#[derive(Debug)]
pub struct StartArgs {
    pub name: Option<String>,
    pub comment: Option<String>,
}

/// An error of the front-end's project lookup.
#[derive(Debug, PartialEq, Eq)]
pub enum ProjectError {
    /// No project carries the given name.
    NoProjectWithName(String),
    /// The local cache of project names could not be used; the payload
    /// carries the underlying words.
    CacheError(String),
}

impl ProjectError {
    /// Renders the error as text.
    pub fn message(&self) -> (m: String)
        ensures
            *self matches ProjectError::NoProjectWithName(n) ==> m@ == "No project named: "@ + n@,
            *self matches ProjectError::CacheError(n) ==> m@
                == "Failed finding ID for project "@ + n@ + " in cache"@,
    {
        match self {
            ProjectError::NoProjectWithName(n) => {
                let mut m: String = "No project named: ".to_owned();
                m.append(n.as_str());
                m
            },
            ProjectError::CacheError(n) => {
                let mut m: String = "Failed finding ID for project ".to_owned();
                m.append(n.as_str());
                m.append(" in cache");
                m
            },
        }
    }
}

/// Which projects a selection offers: all of them, only the active ones, or
/// only the inactive ones.
#[derive(Clone, Copy, Debug, PartialEq, Eq, Structural)]
pub enum ProjectSelectOption {
    Any,
    Active,
    InActive,
}

/// Whether a selection option accepts a project.
pub open spec fn spec_option_accepts(option: ProjectSelectOption, p: Project) -> bool {
    match option {
        ProjectSelectOption::Any => true,
        ProjectSelectOption::Active => p.status is Active,
        ProjectSelectOption::InActive => p.status is Inactive,
    }
}

/// The selection a listing offers under an option.
pub open spec fn option_selector(option: ProjectSelectOption) -> spec_fn(Project) -> bool {
    |p: Project| spec_option_accepts(option, p)
}

/// The view of each name in a list of names.
pub open spec fn string_views() -> spec_fn(String) -> Seq<char> {
    |s: String| s@
}

/// The name of each project in a listing.
pub open spec fn project_names() -> spec_fn(Project) -> Seq<char> {
    |p: Project| p.name@
}

/// The name the front-end works on: the one given on the command line when
/// there is one, else the one the user selected from a listing.
pub fn resolve_project_name(args_name: Option<String>, selected_name: String) -> (r: String)
    ensures
        args_name matches Some(n) ==> r == n,
        args_name is None ==> r == selected_name,
{
    match args_name {
        Some(n) => n,
        None => selected_name,
    }
}

/// The first project carrying the given name, by position in the listing.
pub fn get_project_by_name(projects: &Vec<Project>, name: &str) -> (r: Option<usize>)
    ensures
        match r {
            Some(i) => i < projects@.len() && projects@[i as int].name@ == name@ && forall|j: int|
                0 <= j < i ==> (#[trigger] projects@[j]).name@ != name@,
            None => forall|j: int|
                0 <= j < projects@.len() ==> (#[trigger] projects@[j]).name@ != name@,
        },
{
    let mut i: usize = 0;
    while i < projects.len()
        invariant
            i <= projects@.len(),
            forall|j: int| 0 <= j < i ==> (#[trigger] projects@[j]).name@ != name@,
        decreases projects@.len() - i,
    {
        if crate::str_eq(projects[i].name.as_str(), name) {
            return Some(i);
        }
        i = i + 1;
    }
    None
}

/// The identifier cached under the given name; the cache is a list of
/// `(identifier, name)` pairs.
pub fn get_project_id_by_name(cache: &Vec<(String, String)>, name: &str) -> (r: Result<
    String,
    ProjectError,
>)
    ensures
        (exists|j: int| 0 <= j < cache@.len() && (#[trigger] cache@[j]).1@ == name@) <==> r is Ok,
        r matches Ok(id) ==> (exists|j: int|
            0 <= j < cache@.len() && (#[trigger] cache@[j]).1@ == name@ && id@ == cache@[j].0@),
        r matches Err(ProjectError::NoProjectWithName(n)) ==> n@ == name@,
        r is Err ==> r matches Err(ProjectError::NoProjectWithName(_)),
{
    let mut i: usize = 0;
    while i < cache.len()
        invariant
            i <= cache@.len(),
            forall|j: int| 0 <= j < i ==> (#[trigger] cache@[j]).1@ != name@,
        decreases cache@.len() - i,
    {
        if crate::str_eq(cache[i].1.as_str(), name) {
            return Ok(cache[i].0.clone());
        }
        i = i + 1;
    }
    Err(ProjectError::NoProjectWithName(name.to_owned()))
}

/// The names a selection offers: those of the projects the option accepts,
/// in listing order.
pub fn project_select_options(projects: &Vec<Project>, option: ProjectSelectOption) -> (r: Vec<
    String,
>)
    ensures
        r@.map_values(string_views()) == projects@.filter(option_selector(option)).map_values(
            project_names(),
        ),
{
    let mut names: Vec<String> = Vec::new();
    let mut i: usize = 0;
    proof {
        assert(names@.map_values(string_views()) =~= projects@.subrange(0, 0).filter(
            option_selector(option),
        ).map_values(project_names()));
    }
    while i < projects.len()
        invariant
            i <= projects@.len(),
            names@.map_values(string_views()) == projects@.subrange(0, i as int).filter(
                option_selector(option),
            ).map_values(project_names()),
        decreases projects@.len() - i,
    {
        let ghost prefix = projects@.subrange(0, i as int);
        let p = &projects[i];
        let accepted = match option {
            ProjectSelectOption::Any => true,
            ProjectSelectOption::Active => matches!(p.status, ProjectStatus::Active),
            ProjectSelectOption::InActive => matches!(p.status, ProjectStatus::Inactive),
        };
        if accepted {
            names.push(p.name.clone());
        }
        proof {
            reveal(Seq::filter);
            let sel = option_selector(option);
            let longer = projects@.subrange(0, i as int + 1);
            assert(longer.drop_last() =~= prefix);
            assert(longer.last() == projects@[i as int]);
            if sel(longer.last()) {
                assert(longer.filter(sel) == prefix.filter(sel).push(longer.last()));
                assert(longer.filter(sel).map_values(project_names()) =~= prefix.filter(
                    sel,
                ).map_values(project_names()).push(projects@[i as int].name@));
                assert(names@.map_values(string_views()) =~= names@.map_values(
                    string_views(),
                ));
            } else {
                assert(longer.filter(sel) == prefix.filter(sel));
            }
        }
        i = i + 1;
    }
    proof {
        assert(projects@.subrange(0, projects@.len() as int) =~= projects@);
    }
    names
}

} // verus!
